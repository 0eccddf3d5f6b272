use secure_sum::metric::{Metric, ProbeInput};
use secure_sum::probe_name::ProbeName;

fn entry(name: ProbeName, weight: i64, max_times: Option<usize>) -> ProbeInput {
    ProbeInput {
        name,
        weight,
        max_times,
    }
}

#[test]
fn metric_weight_of_zero_is_treated_as_none() {
    let entries = vec![
        entry(ProbeName::archived, 0, None),
        entry(ProbeName::blocksDeleteOnBranches, 1000, None),
    ];
    let metric = Metric::new(None, None, entries).expect("Failed to build metric!");
    assert_eq!(metric.probes.len(), 1);
}

#[test]
fn max_times_of_zero_is_treated_as_none() {
    let entries = vec![
        entry(ProbeName::archived, 1000, Some(0)),
        entry(ProbeName::blocksDeleteOnBranches, 1000, None),
    ];
    let metric = Metric::new(None, None, entries).expect("Failed to build metric!");
    assert_eq!(metric.probes.len(), 1);
}

#[test]
fn probe_duplications_are_error() {
    let entries = vec![
        entry(ProbeName::archived, -1000, None),
        entry(ProbeName::archived, 1000, None),
    ];
    let result = Metric::new(None, None, entries);
    assert!(result.is_err())
}

#[test]
fn metric_completely_empty_metric_is_not_ok() {
    assert!(Metric::new(None, None, vec![]).is_err());
}

#[test]
fn metric_all_weights_zero_is_treated_as_empty() {
    let entries = vec![entry(ProbeName::archived, 0, None)];
    let metric = Metric::new(None, None, entries);
    assert!(metric.is_err());
}

#[test]
fn unknown_probe_is_error() {
    assert!(ProbeName::from_str("archived").is_some());
    assert!(ProbeName::from_str(
        "definetelyNotAFieldThatSecureSumWouldExpectGivenThePresentStateOfTheEconomy"
    )
    .is_none());
}

#[test]
fn surviving_entries_keep_their_order_and_values() {
    let entries = vec![
        entry(ProbeName::archived, -1000, None),
        entry(ProbeName::codeApproved, 1000, Some(12)),
    ];
    let metric = Metric::new(Some(4000), Some(5000), entries.clone()).unwrap();
    assert_eq!(metric.error_threshold, Some(4000));
    assert_eq!(metric.warn_threshold, Some(5000));
    assert_eq!(metric.probes, entries);
}
