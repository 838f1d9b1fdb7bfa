//! Decoding of inbound work requests and the processing of a site request:
//! one run id, every page under every enabled profile in order, and an
//! acknowledgment only once all of them succeeded.
use vstd::prelude::*;
use vstd::arithmetic::div_mod::lemma_fundamental_div_mod_converse;
use crate::error::WorkerError;
use crate::models::{
    build_page_score_parameters, is_request_for, profile_enabled, AuditProfile, Cookie, PageScoreParameters,
    ScoreParameters, Site, SiteScoreParameters,
};

verus! {

/// An inbound message once decoded: exactly one of the two request forms.
#[derive(Debug)]
pub enum WorkRequest {
    Site(SiteScoreParameters),
    Page(PageScoreParameters),
}

/// The request a decoded message carries; `MalformedMessage` when it names
/// both forms or neither.
pub fn decode_work_request(parameters: ScoreParameters) -> (r: Result<WorkRequest, WorkerError>)
    ensures
        parameters.site is Some && parameters.page is None
            ==> (r matches Ok(WorkRequest::Site(s)) && s == parameters.site->Some_0),
        parameters.page is Some && parameters.site is None
            ==> (r matches Ok(WorkRequest::Page(p)) && p == parameters.page->Some_0),
        (parameters.site is Some) == (parameters.page is Some)
            ==> r == Err::<WorkRequest, WorkerError>(WorkerError::MalformedMessage),
{
    match (parameters.site, parameters.page) {
        (Some(site), None) => Ok(WorkRequest::Site(site)),
        (None, Some(page)) => Ok(WorkRequest::Page(page)),
        _ => Err(WorkerError::MalformedMessage),
    }
}

/// The run id read back from the site after its counter was incremented;
/// `SequencingFailure` when the site was not there to increment.
pub fn get_next_run_id(incremented_site: &Option<Site>) -> (r: Result<i32, WorkerError>)
    ensures
        incremented_site matches Some(s) ==> r == Ok::<i32, WorkerError>(s.last_run_id),
        incremented_site is None ==> r == Err::<i32, WorkerError>(WorkerError::SequencingFailure),
{
    match incremented_site {
        Some(site) => Ok(site.last_run_id),
        None => Err(WorkerError::SequencingFailure),
    }
}

/// Indices of the enabled profiles, in order.
pub open spec fn enabled_indices(profiles: Seq<AuditProfile>) -> Seq<int>
    decreases profiles.len(),
{
    if profiles.len() == 0 {
        Seq::empty()
    } else if profile_enabled(profiles.last()) {
        enabled_indices(profiles.drop_last()).push(profiles.len() - 1)
    } else {
        enabled_indices(profiles.drop_last())
    }
}

/// The (page, profile) pairs of the first `n_pages` pages: page by page, and
/// within a page each profile of `profiles` in order.
pub open spec fn audit_plan(n_pages: int, profiles: Seq<int>) -> Seq<(int, int)>
    decreases n_pages,
{
    if n_pages <= 0 {
        Seq::empty()
    } else {
        audit_plan(n_pages - 1, profiles) + profiles.map_values(|j: int| (n_pages - 1, j))
    }
}

/// The (page, profile) pairs that a request for `site` expands into.
pub open spec fn site_plan(site: Site) -> Seq<(int, int)> {
    audit_plan(site.pages@.len() as int, enabled_indices(site.audit_profiles@))
}

/// One (page, profile) unit of a site audit, by position in the site.
#[derive(Clone, Copy, Debug, PartialEq, Eq, Structural)]
pub struct AuditUnit {
    pub page_index: usize,
    pub profile_index: usize,
}

pub open spec fn unit_pair(u: AuditUnit) -> (int, int) {
    (u.page_index as int, u.profile_index as int)
}

proof fn lemma_enabled_indices_take(profiles: Seq<AuditProfile>, j: int)
    requires
        0 <= j < profiles.len(),
    ensures
        enabled_indices(profiles.take(j + 1)) == if profile_enabled(profiles[j]) {
            enabled_indices(profiles.take(j)).push(j)
        } else {
            enabled_indices(profiles.take(j))
        },
{
    assert(profiles.take(j + 1).drop_last() =~= profiles.take(j));
}

/// Every enabled index is the position of an enabled profile.
pub proof fn lemma_enabled_indices_sound(profiles: Seq<AuditProfile>)
    ensures
        forall|k: int| 0 <= k < enabled_indices(profiles).len() ==> {
            let j = #[trigger] enabled_indices(profiles)[k];
            0 <= j < profiles.len() && profile_enabled(profiles[j])
        },
    decreases profiles.len(),
{
    if profiles.len() > 0 {
        let rest = profiles.drop_last();
        lemma_enabled_indices_sound(rest);
        let e = enabled_indices(profiles);
        let prev = enabled_indices(rest);
        assert forall|k: int| 0 <= k < e.len() implies {
            let j = #[trigger] e[k];
            0 <= j < profiles.len() && profile_enabled(profiles[j])
        } by {
            if k < prev.len() {
                assert(e[k] == prev[k]);
                assert(rest[prev[k]] == profiles[prev[k]]);
            }
        }
    }
}

/// Every enabled profile appears among the enabled indices.
pub proof fn lemma_enabled_indices_complete(profiles: Seq<AuditProfile>, j: int)
    requires
        0 <= j < profiles.len(),
        profile_enabled(profiles[j]),
    ensures
        enabled_indices(profiles).contains(j),
    decreases profiles.len(),
{
    let e = enabled_indices(profiles);
    if j == profiles.len() - 1 {
        assert(e[e.len() - 1] == j);
    } else {
        lemma_enabled_indices_complete(profiles.drop_last(), j);
        let prev = enabled_indices(profiles.drop_last());
        let k = choose|k: int| 0 <= k < prev.len() && prev[k] == j;
        assert(e[k] == j);
    }
}

/// The plan has one entry per page and enabled profile, each naming an
/// existing page and an enabled profile.
pub proof fn lemma_audit_plan_shape(n_pages: int, profiles: Seq<int>)
    requires
        n_pages >= 0,
    ensures
        audit_plan(n_pages, profiles).len() == n_pages * profiles.len(),
        forall|k: int| 0 <= k < audit_plan(n_pages, profiles).len() ==> {
            let p = #[trigger] audit_plan(n_pages, profiles)[k];
            &&& 0 <= p.0 < n_pages
            &&& profiles.contains(p.1)
            &&& p.0 == k / (profiles.len() as int)
            &&& p.1 == profiles[k % (profiles.len() as int)]
        },
    decreases n_pages,
{
    if n_pages > 0 {
        lemma_audit_plan_shape(n_pages - 1, profiles);
        let m = profiles.len() as int;
        let prev = audit_plan(n_pages - 1, profiles);
        let plan = audit_plan(n_pages, profiles);
        assert(n_pages * m == (n_pages - 1) * m + m) by (nonlinear_arith);
        assert forall|k: int| 0 <= k < plan.len() implies {
            let p = #[trigger] plan[k];
            &&& 0 <= p.0 < n_pages
            &&& profiles.contains(p.1)
            &&& p.0 == k / m
            &&& p.1 == profiles[k % m]
        } by {
            if k >= prev.len() {
                let r = k - prev.len();
                assert(plan[k] == (n_pages - 1, profiles[r]));
                assert(k / m == n_pages - 1 && k % m == r) by (nonlinear_arith)
                    requires k == (n_pages - 1) * m + r, 0 <= r < m;
            }
        }
    } else {
        assert(n_pages * profiles.len() == 0) by (nonlinear_arith)
            requires n_pages == 0;
    }
}

/// Disabled profiles are never audited: a site request runs exactly one unit
/// for each page and each enabled profile, page by page, and every unit names
/// an existing page and an enabled profile.
pub proof fn lemma_only_enabled_profiles_audited(site: Site)
    ensures
        site_plan(site).len() == site.pages@.len() * enabled_indices(site.audit_profiles@).len(),
        forall|k: int| 0 <= k < site_plan(site).len() ==> {
            let p = #[trigger] site_plan(site)[k];
            &&& 0 <= p.0 < site.pages@.len()
            &&& 0 <= p.1 < site.audit_profiles@.len()
            &&& profile_enabled(site.audit_profiles@[p.1])
        },
        forall|i: int, j: int|
            0 <= i < site.pages@.len() && 0 <= j < site.audit_profiles@.len()
                && profile_enabled(site.audit_profiles@[j])
                ==> site_plan(site).contains((i, j)),
{
    let profiles = site.audit_profiles@;
    let e = enabled_indices(profiles);
    let n = site.pages@.len() as int;
    lemma_audit_plan_shape(n, e);
    lemma_enabled_indices_sound(profiles);
    let plan = site_plan(site);
    assert forall|k: int| 0 <= k < plan.len() implies {
        let p = #[trigger] plan[k];
        &&& 0 <= p.0 < n
        &&& 0 <= p.1 < profiles.len()
        &&& profile_enabled(profiles[p.1])
    } by {
        let p = plan[k];
        let q = choose|q: int| 0 <= q < e.len() && e[q] == p.1;
        assert(e[q] == p.1);
    }
    assert forall|i: int, j: int|
        0 <= i < n && 0 <= j < profiles.len() && profile_enabled(profiles[j])
        implies plan.contains((i, j)) by {
        lemma_enabled_indices_complete(profiles, j);
        let q = choose|q: int| 0 <= q < e.len() && e[q] == j;
        let m = e.len() as int;
        let k = i * m + q;
        assert(0 <= k < n * m) by (nonlinear_arith)
            requires 0 <= i < n, 0 <= q < m, k == i * m + q;
        lemma_fundamental_div_mod_converse(k, m, i, q);
        assert(plan[k] == (i, j));
    }
}

/// The units a request for `site` expands into, in processing order.
pub fn plan_site_audit(site: &Site) -> (r: Vec<AuditUnit>)
    ensures
        r@.map_values(|u: AuditUnit| unit_pair(u)) == site_plan(*site),
{
    let ghost profiles = site.audit_profiles@;
    let ghost e = enabled_indices(profiles);
    let mut units: Vec<AuditUnit> = Vec::new();
    let mut i: usize = 0;
    while i < site.pages.len()
        invariant
            i <= site.pages.len(),
            profiles == site.audit_profiles@,
            e == enabled_indices(profiles),
            units@.map_values(|u: AuditUnit| unit_pair(u)) == audit_plan(i as int, e),
        decreases site.pages.len() - i,
    {
        let ghost before = units@.map_values(|u: AuditUnit| unit_pair(u));
        let mut j: usize = 0;
        while j < site.audit_profiles.len()
            invariant
                i < site.pages.len(),
                j <= site.audit_profiles.len(),
                profiles == site.audit_profiles@,
                e == enabled_indices(profiles),
                before == audit_plan(i as int, e),
                units@.map_values(|u: AuditUnit| unit_pair(u)) == before
                    + enabled_indices(profiles.take(j as int)).map_values(|q: int| (i as int, q)),
            decreases site.audit_profiles.len() - j,
        {
            proof {
                lemma_enabled_indices_take(profiles, j as int);
            }
            if site.audit_profiles[j].is_enabled() {
                let ghost prior = units@;
                units.push(AuditUnit { page_index: i, profile_index: j });
                proof {
                    assert(units@.map_values(|u: AuditUnit| unit_pair(u))
                        =~= prior.map_values(|u: AuditUnit| unit_pair(u)).push((i as int, j as int)));
                    assert(enabled_indices(profiles.take(j + 1)).map_values(|q: int| (i as int, q))
                        =~= enabled_indices(profiles.take(j as int)).map_values(|q: int| (i as int, q))
                            .push((i as int, j as int)));
                }
            }
            j = j + 1;
        }
        proof {
            assert(profiles.take(j as int) =~= profiles);
            assert(audit_plan(i + 1, e) == audit_plan(i as int, e) + e.map_values(|q: int| (i as int, q)));
        }
        i = i + 1;
    }
    units
}

/// One (page, profile) measurement of a site audit, ready to run.
#[derive(Debug)]
pub struct ProfileAudit {
    pub run_id: i32,
    pub page_index: usize,
    pub profile_index: usize,
    pub parameters: PageScoreParameters,
}

/// What the driver of a site audit does next.
#[derive(Debug)]
pub enum SiteAuditAction {
    /// Measure and persist one (page, profile) unit.
    Audit(ProfileAudit),
    /// Every unit succeeded: acknowledge the inbound message.
    Acknowledge,
    /// A unit failed: stop, and leave the message unacknowledged.
    Abandon(WorkerError),
}

/// A site audit in progress: the site, the cookie of the request, the one run
/// id allocated for the request, the units still to run, and any failure.
pub struct SiteAudit {
    site: Site,
    cookie: Option<Cookie>,
    run_id: i32,
    units: Vec<AuditUnit>,
    completed: usize,
    failure: Option<WorkerError>,
}

impl SiteAudit {
    pub closed spec fn site_spec(&self) -> Site {
        self.site
    }

    pub closed spec fn cookie_spec(&self) -> Option<Cookie> {
        self.cookie
    }

    pub closed spec fn run_id_spec(&self) -> i32 {
        self.run_id
    }

    /// The units of the audit, in processing order.
    pub closed spec fn units_spec(&self) -> Seq<(int, int)> {
        self.units@.map_values(|u: AuditUnit| unit_pair(u))
    }

    /// How many units have succeeded.
    pub closed spec fn completed_spec(&self) -> nat {
        self.completed as nat
    }

    pub closed spec fn failure_spec(&self) -> Option<WorkerError> {
        self.failure
    }

    pub closed spec fn wf(&self) -> bool {
        &&& self.units_spec() == site_plan(self.site)
        &&& self.completed <= self.units@.len()
    }

    /// Starts the audit of `site` under run id `run_id`, with every page under
    /// every enabled profile still to run.
    pub fn new(site: Site, cookie: Option<Cookie>, run_id: i32) -> (r: SiteAudit)
        ensures
            r.wf(),
            r.site_spec() == site,
            r.cookie_spec() == cookie,
            r.run_id_spec() == run_id,
            r.units_spec() == site_plan(site),
            r.completed_spec() == 0,
            r.failure_spec() is None,
    {
        let units = plan_site_audit(&site);
        SiteAudit { site, cookie, run_id, units, completed: 0, failure: None }
    }

    /// The next step: abandon after a failure, run the next unit in order
    /// while some are left, and acknowledge only when all have succeeded.
    pub fn next_action(&self) -> (r: SiteAuditAction)
        requires
            self.wf(),
        ensures
            self.failure_spec() matches Some(e) ==> r == SiteAuditAction::Abandon(e),
            self.failure_spec() is None && self.completed_spec() < self.units_spec().len() ==> {
                r matches SiteAuditAction::Audit(a) && {
                    let unit = self.units_spec()[self.completed_spec() as int];
                    let site = self.site_spec();
                    &&& a.run_id == self.run_id_spec()
                    &&& a.page_index == unit.0
                    &&& a.profile_index == unit.1
                    &&& a.page_index < site.pages@.len()
                    &&& a.profile_index < site.audit_profiles@.len()
                    &&& profile_enabled(site.audit_profiles@[unit.1])
                    &&& is_request_for(a.parameters, site.pages@[unit.0],
                        site.audit_profiles@[unit.1], self.cookie_spec())
                }
            },
            self.failure_spec() is None && self.completed_spec() == self.units_spec().len()
                ==> r == SiteAuditAction::Acknowledge,
    {
        match self.failure {
            Some(e) => SiteAuditAction::Abandon(e),
            None => {
                if self.completed < self.units.len() {
                    let unit = self.units[self.completed];
                    proof {
                        lemma_only_enabled_profiles_audited(self.site);
                        assert(self.units_spec()[self.completed as int] == unit_pair(unit));
                    }
                    let parameters = build_page_score_parameters(
                        &self.site.pages[unit.page_index],
                        &self.site.audit_profiles[unit.profile_index],
                        &self.cookie,
                    );
                    SiteAuditAction::Audit(ProfileAudit {
                        run_id: self.run_id,
                        page_index: unit.page_index,
                        profile_index: unit.profile_index,
                        parameters,
                    })
                } else {
                    SiteAuditAction::Acknowledge
                }
            },
        }
    }

    /// Records that the current unit succeeded.
    pub fn record_success(&mut self)
        requires
            old(self).wf(),
            old(self).failure_spec() is None,
            old(self).completed_spec() < old(self).units_spec().len(),
        ensures
            final(self).wf(),
            final(self).completed_spec() == old(self).completed_spec() + 1,
            final(self).site_spec() == old(self).site_spec(),
            final(self).cookie_spec() == old(self).cookie_spec(),
            final(self).run_id_spec() == old(self).run_id_spec(),
            final(self).units_spec() == old(self).units_spec(),
            final(self).failure_spec() is None,
    {
        assert(self.units_spec().len() == self.units@.len());
        let count = self.units.len();
        assert(self.completed < count);
        self.completed = self.completed + 1;
    }

    /// Records that the current unit failed with `error`; the audit is then
    /// over and its message is never acknowledged.
    pub fn record_failure(&mut self, error: WorkerError)
        requires
            old(self).wf(),
            old(self).failure_spec() is None,
        ensures
            final(self).wf(),
            final(self).failure_spec() == Some(error),
            final(self).completed_spec() == old(self).completed_spec(),
            final(self).site_spec() == old(self).site_spec(),
            final(self).cookie_spec() == old(self).cookie_spec(),
            final(self).run_id_spec() == old(self).run_id_spec(),
            final(self).units_spec() == old(self).units_spec(),
    {
        self.failure = Some(error);
    }

    /// The site being audited.
    pub fn site(&self) -> (r: &Site)
        ensures
            *r == self.site_spec(),
    {
        &self.site
    }

    /// The run id shared by every unit of the audit.
    pub fn run_id(&self) -> (r: i32)
        ensures
            r == self.run_id_spec(),
    {
        self.run_id
    }
}

} // verus!
