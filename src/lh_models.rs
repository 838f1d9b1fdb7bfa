use vstd::prelude::*;

verus! {

/// Scores are carried as integers: a backend score of `1.0` is `SCORE_SCALE`.
pub const SCORE_SCALE: u32 = 1_000_000;

/// One measurement returned by the auditing backend, reduced to what the
/// selection reads and what identifies the measurement.
#[derive(Clone, Debug, Default)]
pub struct Report {
    pub lighthouse_version: String,
    pub requested_url: String,
    pub final_url: String,
    pub fetch_time: String,
    pub environment: Environment,
    pub categories: Categories,
}

/// Description of the environment the measurement ran in.
#[derive(Clone, Debug, Default)]
pub struct Environment {}

#[derive(Clone, Debug, Default)]
pub struct Categories {
    pub performance: Performance,
}

/// The performance category: its score is what the selection compares.
#[derive(Clone, Debug, Default)]
pub struct Performance {
    pub id: String,
    pub title: String,
    /// Performance score in units of `1 / SCORE_SCALE`.
    pub score: u32,
    pub audit_refs: Vec<AuditRef>,
}

/// A weighted reference from a category to one of its audits.
#[derive(Clone, Debug, Default)]
pub struct AuditRef {
    pub id: String,
    pub weight: i8,
    pub group: Option<String>,
}

impl Report {
    /// The performance score of this measurement.
    pub fn score(&self) -> (r: u32)
        ensures
            r == self.categories.performance.score,
    {
        self.categories.performance.score
    }
}

} // verus!
