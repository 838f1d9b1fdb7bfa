//! Sample statistics of the attempts of one sampling run, in exact integer
//! arithmetic.
//!
//! For a sample `s` of `n` scores with total `S`, the mean is the ratio
//! `S / n`. The deviation of attempt `i` from the mean, scaled by `n`, is
//! `n * s[i] - S`, and the population variance is
//! `sum_j (n * s[j] - S)^2 / n^3`. An attempt lies within one standard
//! deviation of the mean exactly when `n * (n * s[i] - S)^2` is at most
//! `sum_j (n * s[j] - S)^2`, which needs no square root.
use vstd::prelude::*;
use crate::error::WorkerError;
use crate::lh_models::Report;

verus! {

/// The largest sample the statistics accept; it keeps every intermediate
/// value within 128 bits.
pub const MAX_ATTEMPTS: usize = 1_000_000;

/// The scores of a sequence of reports, in order.
pub open spec fn score_seq(reports: Seq<Report>) -> Seq<int> {
    Seq::new(reports.len(), |i: int| reports[i].categories.performance.score as int)
}

/// Sum of a sequence of integers.
pub open spec fn total(s: Seq<int>) -> int
    decreases s.len(),
{
    if s.len() == 0 {
        0
    } else {
        total(s.drop_last()) + s.last()
    }
}

/// Deviation of `s[i]` from the mean of `s`, scaled by the sample size.
pub open spec fn scaled_deviation(s: Seq<int>, i: int) -> int {
    s.len() * s[i] - total(s)
}

/// Sum of the squared scaled deviations of the first `k` entries of `s`.
pub open spec fn squared_deviations_upto(s: Seq<int>, k: int) -> int
    decreases k,
{
    if k <= 0 {
        0
    } else {
        squared_deviations_upto(s, k - 1) + scaled_deviation(s, k - 1) * scaled_deviation(s, k - 1)
    }
}

/// `n^3` times the population variance of `s`.
pub open spec fn squared_deviations(s: Seq<int>) -> int {
    squared_deviations_upto(s, s.len() as int)
}

/// Whether `s[i]` lies within one population standard deviation of the mean,
/// boundary included.
pub open spec fn is_inlier(s: Seq<int>, i: int) -> bool {
    s.len() * (scaled_deviation(s, i) * scaled_deviation(s, i)) <= squared_deviations(s)
}

/// `i` is the attempt the selection picks: an inlier with the highest score
/// among inliers, and the first such in sampling order.
pub open spec fn is_best_inlier(s: Seq<int>, i: int) -> bool {
    &&& 0 <= i < s.len()
    &&& is_inlier(s, i)
    &&& forall|j: int| 0 <= j < s.len() && is_inlier(s, j) ==> s[j] <= s[i]
    &&& forall|j: int| 0 <= j < i && is_inlier(s, j) ==> s[j] < s[i]
}

/// The mean of a sample, as the exact ratio `sum / count`.
#[derive(Clone, Copy, Debug, PartialEq, Eq, Structural)]
pub struct SampleMean {
    pub sum: u64,
    pub count: u64,
}

/// The spread of a sample: the population variance is
/// `squared_deviations / count^3`, and the standard deviation its square root.
#[derive(Clone, Copy, Debug, PartialEq, Eq, Structural)]
pub struct SampleSpread {
    pub squared_deviations: u128,
    pub count: u64,
}

proof fn lemma_total_bounds(s: Seq<int>)
    requires
        forall|i: int| 0 <= i < s.len() ==> 0 <= #[trigger] s[i] <= u32::MAX,
    ensures
        0 <= total(s) <= s.len() * u32::MAX,
    decreases s.len(),
{
    if s.len() > 0 {
        lemma_total_bounds(s.drop_last());
        assert(s.len() * u32::MAX == (s.len() - 1) * u32::MAX + u32::MAX) by (nonlinear_arith);
    }
}

proof fn lemma_total_prefix(s: Seq<int>, k: int)
    requires
        0 <= k < s.len(),
    ensures
        total(s.take(k + 1)) == total(s.take(k)) + s[k],
{
    assert(s.take(k + 1).drop_last() =~= s.take(k));
}

/// Sum of the scores of `reports`, as the exact numerator of their mean.
fn score_total(reports: &Vec<Report>) -> (r: u64)
    requires
        reports.len() <= MAX_ATTEMPTS,
    ensures
        r == total(score_seq(reports@)),
{
    let ghost s = score_seq(reports@);
    let mut sum: u64 = 0;
    let mut i: usize = 0;
    while i < reports.len()
        invariant
            i <= reports.len() <= MAX_ATTEMPTS,
            s == score_seq(reports@),
            sum == total(s.take(i as int)),
            sum <= i * (u32::MAX as int),
        decreases reports.len() - i,
    {
        proof {
            lemma_total_prefix(s, i as int);
            assert((i + 1) * (u32::MAX as int) == i * (u32::MAX as int) + u32::MAX) by (nonlinear_arith);
            assert(i * (u32::MAX as int) <= MAX_ATTEMPTS * (u32::MAX as int)) by (nonlinear_arith)
                requires i <= MAX_ATTEMPTS;
        }
        sum = sum + reports[i].categories.performance.score as u64;
        i = i + 1;
    }
    assert(s.take(i as int) =~= s);
    sum
}

/// The mean score of `reports`; `None` when there are none.
pub fn calculate_mean(reports: &Vec<Report>) -> (r: Option<SampleMean>)
    requires
        reports.len() <= MAX_ATTEMPTS,
    ensures
        r is None <==> reports.len() == 0,
        r matches Some(m) ==> m.sum == total(score_seq(reports@)) && m.count == reports.len(),
{
    let count = reports.len();
    if count == 0 {
        return None;
    }
    let sum = score_total(reports);
    Some(SampleMean { sum, count: count as u64 })
}

/// `|n * score - sum|`, the magnitude of a scaled deviation.
fn abs_scaled_deviation(n: u64, score: u32, sum: u64) -> (r: u128)
    requires
        n <= MAX_ATTEMPTS,
        sum <= MAX_ATTEMPTS * (u32::MAX as int),
    ensures
        r == if n * score >= sum { n * score - sum } else { sum - n * score },
        r <= 0x10_0000_0000_0000,
{
    assert(n * score <= MAX_ATTEMPTS * (u32::MAX as int)) by (nonlinear_arith)
        requires n <= MAX_ATTEMPTS, score <= u32::MAX;
    let scaled: u128 = n as u128 * score as u128;
    let sum_wide: u128 = sum as u128;
    if scaled >= sum_wide {
        scaled - sum_wide
    } else {
        sum_wide - scaled
    }
}

proof fn lemma_square_bound(a: int)
    requires
        0 <= a <= 0x10_0000_0000_0000,
    ensures
        a * a <= 0x100_0000_0000_0000_0000_0000_0000,
{
    assert(a * a <= 0x10_0000_0000_0000 * 0x10_0000_0000_0000) by (nonlinear_arith)
        requires 0 <= a <= 0x10_0000_0000_0000;
}

proof fn lemma_squared_deviations_nonneg(s: Seq<int>, k: int)
    ensures
        squared_deviations_upto(s, k) >= 0,
    decreases k,
{
    if k > 0 {
        lemma_squared_deviations_nonneg(s, k - 1);
        let d = scaled_deviation(s, k - 1);
        assert(d * d >= 0) by (nonlinear_arith);
    }
}

/// `n^3` times the population variance of the scores of `reports`.
fn squared_deviation_total(reports: &Vec<Report>, sum: u64) -> (r: u128)
    requires
        0 < reports.len() <= MAX_ATTEMPTS,
        sum == total(score_seq(reports@)),
    ensures
        r == squared_deviations(score_seq(reports@)),
        r <= MAX_ATTEMPTS * 0x100_0000_0000_0000_0000_0000_0000,
{
    let ghost s = score_seq(reports@);
    proof {
        lemma_total_bounds(s);
        assert(s.len() * (u32::MAX as int) <= MAX_ATTEMPTS * (u32::MAX as int)) by (nonlinear_arith)
            requires s.len() <= MAX_ATTEMPTS;
    }
    let n = reports.len() as u64;
    let mut acc: u128 = 0;
    let mut i: usize = 0;
    while i < reports.len()
        invariant
            i <= reports.len() <= MAX_ATTEMPTS,
            n == reports.len(),
            s == score_seq(reports@),
            sum == total(s),
            sum <= MAX_ATTEMPTS * (u32::MAX as int),
            acc == squared_deviations_upto(s, i as int),
            acc <= i * 0x100_0000_0000_0000_0000_0000_0000,
        decreases reports.len() - i,
    {
        let a = abs_scaled_deviation(n, reports[i].categories.performance.score, sum);
        proof {
            lemma_square_bound(a as int);
            let d = scaled_deviation(s, i as int);
            assert(a * a == d * d) by (nonlinear_arith)
                requires a == d || a == -d;
            assert((i + 1) * 0x100_0000_0000_0000_0000_0000_0000 == i * 0x100_0000_0000_0000_0000_0000_0000 + 0x100_0000_0000_0000_0000_0000_0000) by (nonlinear_arith);
            assert(i * 0x100_0000_0000_0000_0000_0000_0000 <= MAX_ATTEMPTS * 0x100_0000_0000_0000_0000_0000_0000) by (nonlinear_arith)
                requires i < MAX_ATTEMPTS;
        }
        acc = acc + a * a;
        i = i + 1;
    }
    acc
}

/// The population spread of the scores of `reports`; `None` when there are none.
pub fn calculate_std_deviation(reports: &Vec<Report>) -> (r: Option<SampleSpread>)
    requires
        reports.len() <= MAX_ATTEMPTS,
    ensures
        r is None <==> reports.len() == 0,
        r matches Some(v) ==> v.squared_deviations == squared_deviations(score_seq(reports@))
            && v.count == reports.len(),
{
    match calculate_mean(reports) {
        Some(mean) => {
            let squared_deviations = squared_deviation_total(reports, mean.sum);
            Some(SampleSpread { squared_deviations, count: mean.count })
        },
        None => None,
    }
}

proof fn lemma_outliers_exceed(s: Seq<int>, k: int)
    requires
        0 <= k <= s.len(),
        forall|i: int| 0 <= i < k ==> !is_inlier(s, i),
    ensures
        s.len() * squared_deviations_upto(s, k) >= k * (squared_deviations(s) + 1),
    decreases k,
{
    if k > 0 {
        lemma_outliers_exceed(s, k - 1);
        assert(!is_inlier(s, k - 1));
        let n = s.len() as int;
        let d = scaled_deviation(s, k - 1);
        let prev = squared_deviations_upto(s, k - 1);
        let big = squared_deviations(s);
        assert(squared_deviations_upto(s, k) == prev + d * d);
        assert(n * (prev + d * d) >= k * (big + 1)) by (nonlinear_arith)
            requires
                n * prev >= (k - 1) * (big + 1),
                n * (d * d) > big;
    } else {
        assert(s.len() * squared_deviations_upto(s, 0) == 0) by (nonlinear_arith)
            requires squared_deviations_upto(s, 0) == 0;
    }
}

/// A non-empty sample always has an attempt within one standard deviation of
/// its mean.
pub proof fn lemma_some_inlier(s: Seq<int>)
    requires
        s.len() > 0,
    ensures
        exists|i: int| 0 <= i < s.len() && is_inlier(s, i),
{
    if forall|i: int| 0 <= i < s.len() ==> !is_inlier(s, i) {
        lemma_outliers_exceed(s, s.len() as int);
        let n = s.len() as int;
        let big = squared_deviations(s);
        assert(false) by (nonlinear_arith)
            requires n > 0, n * big >= n * (big + 1);
    }
}

/// Index of the attempt that the selection keeps: the highest-scoring attempt
/// within one population standard deviation of the mean, the first one on a
/// tie. Fails with `InsufficientSamples` when there is no attempt at all.
pub fn best_report_index(reports: &Vec<Report>) -> (r: Result<usize, WorkerError>)
    requires
        reports.len() <= MAX_ATTEMPTS,
    ensures
        r is Err <==> reports.len() == 0,
        r matches Err(e) ==> e == WorkerError::InsufficientSamples,
        r matches Ok(i) ==> is_best_inlier(score_seq(reports@), i as int),
{
    let mean = match calculate_mean(reports) {
        Some(m) => m,
        None => return Err(WorkerError::InsufficientSamples),
    };
    let spread = match calculate_std_deviation(reports) {
        Some(v) => v,
        None => return Err(WorkerError::InsufficientSamples),
    };
    let ghost s = score_seq(reports@);
    proof {
        lemma_total_bounds(s);
        assert(s.len() * (u32::MAX as int) <= MAX_ATTEMPTS * (u32::MAX as int)) by (nonlinear_arith)
            requires s.len() <= MAX_ATTEMPTS;
    }
    let n = mean.count;
    let mut best: Option<usize> = None;
    let mut i: usize = 0;
    while i < reports.len()
        invariant
            0 < reports.len() <= MAX_ATTEMPTS,
            i <= reports.len(),
            s == score_seq(reports@),
            n == reports.len(),
            mean.sum == total(s),
            mean.sum <= MAX_ATTEMPTS * (u32::MAX as int),
            spread.squared_deviations == squared_deviations(s),
            best is None ==> forall|j: int| 0 <= j < i ==> !is_inlier(s, j),
            best matches Some(b) ==> {
                &&& b < i
                &&& is_inlier(s, b as int)
                &&& forall|j: int| 0 <= j < i && is_inlier(s, j) ==> s[j] <= s[b as int]
                &&& forall|j: int| 0 <= j < b && is_inlier(s, j) ==> s[j] < s[b as int]
            },
        decreases reports.len() - i,
    {
        let score = reports[i].categories.performance.score;
        let a = abs_scaled_deviation(n, score, mean.sum);
        proof {
            lemma_square_bound(a as int);
            let d = scaled_deviation(s, i as int);
            assert(a * a == d * d) by (nonlinear_arith)
                requires a == d || a == -d;
            assert(n * (a * a) <= MAX_ATTEMPTS * 0x100_0000_0000_0000_0000_0000_0000) by (nonlinear_arith)
                requires n <= MAX_ATTEMPTS, a * a <= 0x100_0000_0000_0000_0000_0000_0000;
        }
        let weighted: u128 = n as u128 * (a * a);
        if weighted <= spread.squared_deviations {
            match best {
                None => {
                    best = Some(i);
                },
                Some(b) => {
                    if score > reports[b].categories.performance.score {
                        best = Some(i);
                    }
                },
            }
        }
        i = i + 1;
    }
    match best {
        Some(b) => Ok(b),
        None => {
            proof {
                lemma_some_inlier(s);
            }
            Err(WorkerError::InsufficientSamples)
        },
    }
}

proof fn lemma_term_below_squared_deviations(s: Seq<int>, k: int, m: int)
    requires
        0 <= k < m,
    ensures
        squared_deviations_upto(s, m) >= scaled_deviation(s, k) * scaled_deviation(s, k),
    decreases m,
{
    lemma_squared_deviations_nonneg(s, m - 1);
    let d = scaled_deviation(s, m - 1);
    assert(d * d >= 0) by (nonlinear_arith);
    if k < m - 1 {
        lemma_term_below_squared_deviations(s, k, m - 1);
    }
}

proof fn lemma_total_constant(s: Seq<int>, c: int)
    requires
        forall|i: int| 0 <= i < s.len() ==> s[i] == c,
    ensures
        total(s) == s.len() * c,
    decreases s.len(),
{
    if s.len() > 0 {
        lemma_total_constant(s.drop_last(), c);
        assert(s.len() * c == (s.len() - 1) * c + c) by (nonlinear_arith);
    } else {
        assert(s.len() * c == 0) by (nonlinear_arith)
            requires s.len() == 0;
    }
}

proof fn lemma_zero_deviations(s: Seq<int>, k: int)
    requires
        0 <= k <= s.len(),
        forall|i: int| 0 <= i < s.len() ==> scaled_deviation(s, i) == 0,
    ensures
        squared_deviations_upto(s, k) == 0,
    decreases k,
{
    if k > 0 {
        lemma_zero_deviations(s, k - 1);
        assert(scaled_deviation(s, k - 1) == 0);
    }
}

/// Two attempts with different scores give a strictly positive standard
/// deviation.
pub proof fn lemma_distinct_scores_positive_spread(s: Seq<int>, i: int, j: int)
    requires
        0 <= i < s.len(),
        0 <= j < s.len(),
        s[i] != s[j],
    ensures
        squared_deviations(s) > 0,
{
    let n = s.len() as int;
    let di = scaled_deviation(s, i);
    let dj = scaled_deviation(s, j);
    assert(di - dj == n * (s[i] - s[j])) by (nonlinear_arith)
        requires di == n * s[i] - total(s), dj == n * s[j] - total(s);
    assert(n * (s[i] - s[j]) != 0) by (nonlinear_arith)
        requires n > 0, s[i] != s[j];
    lemma_term_below_squared_deviations(s, i, n);
    lemma_term_below_squared_deviations(s, j, n);
    if di != 0 {
        assert(di * di > 0) by (nonlinear_arith) requires di != 0;
    } else {
        assert(dj * dj > 0) by (nonlinear_arith) requires dj != 0;
    }
}

/// When every attempt has the same score the standard deviation is zero and
/// every attempt is an inlier.
pub proof fn lemma_identical_scores_zero_spread(s: Seq<int>)
    requires
        forall|i: int, j: int| 0 <= i < s.len() && 0 <= j < s.len() ==> s[i] == s[j],
    ensures
        squared_deviations(s) == 0,
        forall|i: int| 0 <= i < s.len() ==> is_inlier(s, i),
{
    if s.len() > 0 {
        let c = s[0];
        lemma_total_constant(s, c);
        assert forall|i: int| 0 <= i < s.len() implies scaled_deviation(s, i) == 0 by {
            assert(s[i] == c);
        }
        lemma_zero_deviations(s, s.len() as int);
        assert forall|i: int| 0 <= i < s.len() implies is_inlier(s, i) by {
            assert(scaled_deviation(s, i) == 0);
            assert(s.len() * (0 * 0) == 0) by (nonlinear_arith);
        }
    }
}

/// The selection is a function of the sample alone: one sample has exactly
/// one attempt that satisfies it, so running it again gives the same winner.
pub proof fn lemma_best_inlier_unique(s: Seq<int>, i: int, j: int)
    requires
        is_best_inlier(s, i),
        is_best_inlier(s, j),
    ensures
        i == j,
{
    if i < j {
        assert(s[i] < s[j]);
        assert(s[i] <= s[j]);
        assert(s[j] <= s[i]);
    } else if j < i {
        assert(s[j] < s[i]);
        assert(s[i] <= s[j]);
    }
}

/// A sample of one attempt: that attempt is an inlier and is selected.
pub proof fn lemma_single_attempt_selected(s: Seq<int>)
    requires
        s.len() == 1,
    ensures
        is_inlier(s, 0),
        is_best_inlier(s, 0),
{
    lemma_identical_scores_zero_spread(s);
}

} // verus!
