use slick_worker::audit::{SamplingRun, SamplingStep};
use slick_worker::error::WorkerError;
use slick_worker::lh_models::{Report, SCORE_SCALE};
use slick_worker::statistics::{best_report_index, calculate_mean, calculate_std_deviation};

fn report(score: u32) -> Report {
    let mut r = Report::default();
    r.categories.performance.score = score;
    r
}

fn reports(scores: &[f64]) -> Vec<Report> {
    scores
        .iter()
        .map(|s| report((s * SCORE_SCALE as f64).round() as u32))
        .collect()
}

fn mean_of(reports: &Vec<Report>) -> f64 {
    let m = calculate_mean(reports).unwrap();
    m.sum as f64 / m.count as f64 / SCORE_SCALE as f64
}

fn std_of(reports: &Vec<Report>) -> f64 {
    let v = calculate_std_deviation(reports).unwrap();
    let n = v.count as f64;
    (v.squared_deviations as f64 / (n * n * n)).sqrt() / SCORE_SCALE as f64
}

#[test]
fn scenario_noisy_sample_drops_low_outlier() {
    let rs = reports(&[0.80, 0.82, 0.79, 0.81, 0.15, 0.83]);
    let m = calculate_mean(&rs).unwrap();
    assert_eq!(m.sum, 4_200_000);
    assert_eq!(m.count, 6);
    assert!((mean_of(&rs) - 0.70).abs() < 1e-9);
    assert!((std_of(&rs) - 0.24631).abs() < 1e-4);
    let best = best_report_index(&rs).unwrap();
    assert_eq!(best, 5);
    assert_eq!(rs[best].score(), 830_000);
}

#[test]
fn scenario_identical_scores_pick_first() {
    let rs = reports(&[0.5, 0.5, 0.5]);
    assert!((mean_of(&rs) - 0.5).abs() < 1e-12);
    let v = calculate_std_deviation(&rs).unwrap();
    assert_eq!(v.squared_deviations, 0);
    assert_eq!(std_of(&rs), 0.0);
    assert_eq!(best_report_index(&rs), Ok(0));
}

#[test]
fn mean_is_exact_average() {
    let rs = reports(&[0.25, 0.5, 1.0]);
    let m = calculate_mean(&rs).unwrap();
    assert_eq!(m.sum, 1_750_000);
    assert_eq!(m.count, 3);
}

#[test]
fn spread_positive_for_distinct_scores() {
    let rs = reports(&[0.4, 0.41]);
    let v = calculate_std_deviation(&rs).unwrap();
    assert!(v.squared_deviations > 0);
    // deviations scaled by n: 2 * 400000 - 810000 = -10000 and +10000
    assert_eq!(v.squared_deviations, 200_000_000);
    assert!((std_of(&rs) - 0.005).abs() < 1e-9);
}

#[test]
fn empty_sample_has_no_statistics() {
    let rs: Vec<Report> = Vec::new();
    assert_eq!(calculate_mean(&rs), None);
    assert_eq!(calculate_std_deviation(&rs), None);
    assert_eq!(best_report_index(&rs), Err(WorkerError::InsufficientSamples));
}

#[test]
fn single_attempt_is_selected() {
    let rs = reports(&[0.37]);
    let v = calculate_std_deviation(&rs).unwrap();
    assert_eq!(v.squared_deviations, 0);
    assert_eq!(best_report_index(&rs), Ok(0));
}

#[test]
fn tie_among_inliers_resolves_to_first() {
    let rs = reports(&[0.6, 0.7, 0.7, 0.65]);
    assert_eq!(best_report_index(&rs), Ok(1));
}

#[test]
fn high_outlier_is_never_selected() {
    let rs = reports(&[0.30, 0.31, 0.29, 0.30, 0.95]);
    let best = best_report_index(&rs).unwrap();
    assert_eq!(best, 1);
    assert_eq!(rs[best].score(), 310_000);
}

#[test]
fn boundary_deviation_counts_as_inlier() {
    // mean 0.5, population std-dev 0.5: both attempts lie exactly on the boundary
    let rs = reports(&[0.0, 1.0]);
    assert_eq!(best_report_index(&rs), Ok(1));
}

#[test]
fn selection_is_repeatable() {
    let rs = reports(&[0.55, 0.61, 0.12, 0.60, 0.58]);
    let first = best_report_index(&rs);
    let second = best_report_index(&rs);
    assert_eq!(first, second);
    assert_eq!(first, Ok(1));
}

#[test]
fn zero_scores_still_select_an_inlier() {
    let rs = reports(&[0.0, 0.0, 0.9]);
    assert_eq!(best_report_index(&rs), Ok(0));
}

#[test]
fn sampling_run_paces_attempts_then_selects() {
    let mut run = SamplingRun::new(3);
    assert_eq!(run.next_step(), SamplingStep::Measure);
    run.record(report(500_000));
    assert_eq!(run.next_step(), SamplingStep::PauseThenMeasure);
    run.record(report(900_000));
    assert_eq!(run.next_step(), SamplingStep::PauseThenMeasure);
    run.record(report(880_000));
    assert_eq!(run.next_step(), SamplingStep::Select);
    assert_eq!(run.reports().len(), 3);
    assert_eq!(run.select(), Ok(1));
}

#[test]
fn sampling_run_of_one_attempt_keeps_it() {
    let mut run = SamplingRun::new(1);
    assert_eq!(run.next_step(), SamplingStep::Measure);
    run.record(report(420_000));
    assert_eq!(run.next_step(), SamplingStep::Select);
    assert_eq!(run.select(), Ok(0));
}
