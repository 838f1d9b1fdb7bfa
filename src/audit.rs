//! Backend version dispatch and the selection of one sampling run's result.
use vstd::prelude::*;
use vstd::string::*;
use crate::error::WorkerError;
use crate::lh_client::LighthouseClient;
use crate::lh_models::Report;
use crate::models::PageScoreParameters;
use crate::statistics::{best_report_index, is_best_inlier, score_seq, MAX_ATTEMPTS};

verus! {

/// Number of attempts in one sampling run.
pub const DEFAULT_ATTEMPTS: usize = 6;

/// Seconds to wait between two consecutive attempts of a sampling run.
pub const DEFAULT_PACING_SECONDS: u64 = 5;

/// The backend major versions that a measurement can be dispatched to.
#[derive(Clone, Copy, Debug, PartialEq, Eq, Structural)]
pub enum LighthouseVersion {
    V5,
    V6,
    V7,
}

/// The backend version a requested version tag selects: `"5"` and `"7"`
/// select their own version; any other tag, or none, selects version 6.
pub open spec fn version_for_tag(tag: Option<String>) -> LighthouseVersion {
    match tag {
        Some(t) => if t@ == "5"@ {
            LighthouseVersion::V5
        } else if t@ == "7"@ {
            LighthouseVersion::V7
        } else {
            LighthouseVersion::V6
        },
        None => LighthouseVersion::V6,
    }
}

/// The backend version that `page_score_parameters` asks for.
pub fn get_lighthouse_version(page_score_parameters: &PageScoreParameters) -> (r: LighthouseVersion)
    ensures
        r == version_for_tag(page_score_parameters.lighthouse_version),
{
    match &page_score_parameters.lighthouse_version {
        Some(tag) => {
            let five = String::from_str("5");
            let seven = String::from_str("7");
            if *tag == five {
                LighthouseVersion::V5
            } else if *tag == seven {
                LighthouseVersion::V7
            } else {
                LighthouseVersion::V6
            }
        },
        None => LighthouseVersion::V6,
    }
}

/// The client of the backend instance that serves `version`.
pub fn select_client<'a>(
    version: LighthouseVersion,
    lighthouse5_client: &'a LighthouseClient,
    lighthouse6_client: &'a LighthouseClient,
    lighthouse7_client: &'a LighthouseClient,
) -> (r: &'a LighthouseClient)
    ensures
        version == LighthouseVersion::V5 ==> r == lighthouse5_client,
        version == LighthouseVersion::V6 ==> r == lighthouse6_client,
        version == LighthouseVersion::V7 ==> r == lighthouse7_client,
{
    match version {
        LighthouseVersion::V5 => lighthouse5_client,
        LighthouseVersion::V6 => lighthouse6_client,
        LighthouseVersion::V7 => lighthouse7_client,
    }
}

/// The client that measurements for `page_score_parameters` go to.
pub fn client_for<'a>(
    page_score_parameters: &PageScoreParameters,
    lighthouse5_client: &'a LighthouseClient,
    lighthouse6_client: &'a LighthouseClient,
    lighthouse7_client: &'a LighthouseClient,
) -> (r: &'a LighthouseClient)
    ensures
        version_for_tag(page_score_parameters.lighthouse_version) == LighthouseVersion::V5
            ==> r == lighthouse5_client,
        version_for_tag(page_score_parameters.lighthouse_version) == LighthouseVersion::V6
            ==> r == lighthouse6_client,
        version_for_tag(page_score_parameters.lighthouse_version) == LighthouseVersion::V7
            ==> r == lighthouse7_client,
{
    let version = get_lighthouse_version(page_score_parameters);
    select_client(version, lighthouse5_client, lighthouse6_client, lighthouse7_client)
}

/// What the driver of a sampling run does next.
#[derive(Clone, Copy, Debug, PartialEq, Eq, Structural)]
pub enum SamplingStep {
    /// Send the first measurement request.
    Measure,
    /// Wait the pacing delay, then send the next measurement request.
    PauseThenMeasure,
    /// Every attempt has been made: select the result.
    Select,
}

/// One sampling run: a fixed number of attempts against one backend with one
/// request, and the reports collected so far, in sampling order.
pub struct SamplingRun {
    attempts: usize,
    reports: Vec<Report>,
}

impl SamplingRun {
    pub closed spec fn attempts_spec(&self) -> nat {
        self.attempts as nat
    }

    pub closed spec fn reports_spec(&self) -> Seq<Report> {
        self.reports@
    }

    /// The run is within its attempt count, and that count is usable.
    pub closed spec fn wf(&self) -> bool {
        &&& 0 < self.attempts <= MAX_ATTEMPTS
        &&& self.reports@.len() <= self.attempts
    }

    /// A run of `attempts` attempts with nothing collected yet.
    pub fn new(attempts: usize) -> (r: SamplingRun)
        requires
            0 < attempts <= MAX_ATTEMPTS,
        ensures
            r.wf(),
            r.attempts_spec() == attempts,
            r.reports_spec().len() == 0,
    {
        SamplingRun { attempts, reports: Vec::new() }
    }

    /// The next step: measure first, pause between attempts, and select once
    /// every attempt has been made.
    pub fn next_step(&self) -> (r: SamplingStep)
        requires
            self.wf(),
        ensures
            self.reports_spec().len() == 0 ==> r == SamplingStep::Measure,
            0 < self.reports_spec().len() < self.attempts_spec() ==> r == SamplingStep::PauseThenMeasure,
            self.reports_spec().len() == self.attempts_spec() ==> r == SamplingStep::Select,
    {
        if self.reports.len() == 0 {
            SamplingStep::Measure
        } else if self.reports.len() < self.attempts {
            SamplingStep::PauseThenMeasure
        } else {
            SamplingStep::Select
        }
    }

    /// Adds the report of the attempt just made.
    pub fn record(&mut self, report: Report)
        requires
            old(self).wf(),
            old(self).reports_spec().len() < old(self).attempts_spec(),
        ensures
            final(self).wf(),
            final(self).attempts_spec() == old(self).attempts_spec(),
            final(self).reports_spec() == old(self).reports_spec().push(report),
    {
        self.reports.push(report);
    }

    /// The reports collected so far.
    pub fn reports(&self) -> (r: &Vec<Report>)
        ensures
            r@ == self.reports_spec(),
    {
        &self.reports
    }

    /// Index, in sampling order, of the attempt the run keeps: the
    /// highest-scoring attempt within one standard deviation of the mean,
    /// the first on a tie.
    pub fn select(&self) -> (r: Result<usize, WorkerError>)
        requires
            self.wf(),
            self.reports_spec().len() == self.attempts_spec(),
        ensures
            r matches Ok(i) && is_best_inlier(score_seq(self.reports_spec()), i as int),
    {
        best_report_index(&self.reports)
    }
}

} // verus!
