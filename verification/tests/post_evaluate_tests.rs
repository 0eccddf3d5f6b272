use secure_sum::error::Error;
use secure_sum::metric::Metric;
use secure_sum::post_evaluate::{get_thresholds, post_evaluate_repos};
use secure_sum::repodata::RepoData;
use secure_sum::score::Score;
use secure_sum::url::Url;

fn metric_with_thresholds(error_threshold: Option<i64>, warn_threshold: Option<i64>) -> Metric {
    Metric {
        error_threshold,
        warn_threshold,
        probes: vec![],
    }
}

fn repo(name: &str, score_num: i128, score_den: i128) -> RepoData {
    RepoData {
        repo: Url(name.to_string()),
        total_score: Score {
            num: score_num,
            den: score_den,
        },
        probe_outcomes: vec![],
    }
}

#[test]
fn get_thresholds_returns_3_n_4_without_specifications() {
    let metric = metric_with_thresholds(None, None);
    let thresholds = get_thresholds(&metric, None, None);
    assert_eq!(thresholds.error, 3000);
    assert_eq!(thresholds.warn, 4000);
}

#[test]
fn get_thresholds_returns_values_specified_in_metric() {
    let metric = metric_with_thresholds(Some(1200), Some(3400));
    let thresholds = get_thresholds(&metric, None, None);
    assert_eq!(thresholds.error, 1200);
    assert_eq!(thresholds.warn, 3400);
}

#[test]
fn get_thresholds_overwrites_metric_values_by_args() {
    let metric = metric_with_thresholds(Some(1200), Some(3400));
    let thresholds = get_thresholds(&metric, Some(5600), Some(7800));
    assert_eq!(thresholds.error, 5600);
    assert_eq!(thresholds.warn, 7800);
}

#[test]
fn get_thresholds_sets_unspecified_warn_to_error_plus_1() {
    let metric = metric_with_thresholds(Some(1200), None);
    let thresholds = get_thresholds(&metric, None, None);
    assert_eq!(thresholds.warn, 2200);
    let thresholds = get_thresholds(&metric, Some(5600), None);
    assert_eq!(thresholds.warn, 6600);
}

#[test]
fn low_scores_fail_the_run_after_the_report() {
    let metric = metric_with_thresholds(None, None);
    // Scores 2.0 and 5.0 against the default error threshold of 3.0.
    let failing = vec![repo("low", 2, 1), repo("high", 5, 1)];
    let result = post_evaluate_repos(&failing, &metric, None, None);
    assert!(matches!(result, Err(Error::ScoreTooLow)));

    let passing = vec![repo("high", 5, 1)];
    let result = post_evaluate_repos(&passing, &metric, None, None);
    assert!(result.is_ok());

    // An explicit override can make the same scores pass.
    let all = vec![repo("low", 2, 1), repo("high", 5, 1)];
    let result = post_evaluate_repos(&all, &metric, Some(1000), None);
    assert!(result.is_ok());
}

#[test]
fn threshold_diagnostics_flag_odd_configurations() {
    let metric = metric_with_thresholds(Some(5000), Some(2000));
    let thresholds = get_thresholds(&metric, None, None);
    assert!(thresholds.warn_unreachable());
    assert!(!thresholds.error_out_of_range());

    let metric = metric_with_thresholds(Some(-1000), Some(12000));
    let thresholds = get_thresholds(&metric, None, None);
    assert!(thresholds.error_out_of_range());
    assert!(thresholds.warn_out_of_range());
}
