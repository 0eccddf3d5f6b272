use secure_sum::metric::{Metric, ProbeInput};
use secure_sum::probe::{ProbeFinding, ProbeOutcome};
use secure_sum::probe_name::ProbeName;
use secure_sum::score::{
    calculate_total_score, lowest_and_highest_possible_value, weighed_findings, Score,
    WeighedFinding,
};

fn metric_of(probes: Vec<ProbeInput>) -> Metric {
    Metric {
        error_threshold: None,
        warn_threshold: None,
        probes,
    }
}

#[test]
fn weigh_findings_ignores_probes_not_in_metric() {
    let metric = metric_of(vec![ProbeInput {
        name: ProbeName::archived,
        weight: 1000,
        max_times: None,
    }]);
    let findings = vec![
        ProbeFinding {
            probe: ProbeName::archived,
            outcome: ProbeOutcome::True,
        },
        ProbeFinding {
            probe: ProbeName::fuzzed,
            outcome: ProbeOutcome::True,
        },
    ];

    let weighed = weighed_findings(&findings, &metric);

    let expected = vec![WeighedFinding {
        probe: ProbeName::archived,
        outcome: ProbeOutcome::True,
        weight: 1000,
    }];
    assert_eq!(weighed, expected);
}

#[test]
fn weighed_findings_are_sorted_by_weight_amplitude() {
    let metric = metric_of(vec![
        ProbeInput {
            name: ProbeName::archived,
            weight: 1000,
            max_times: None,
        },
        ProbeInput {
            name: ProbeName::fuzzed,
            weight: 2000,
            max_times: None,
        },
        ProbeInput {
            name: ProbeName::codeApproved,
            weight: -3000,
            max_times: None,
        },
    ]);
    let findings = vec![
        ProbeFinding {
            probe: ProbeName::archived,
            outcome: ProbeOutcome::True,
        },
        ProbeFinding {
            probe: ProbeName::codeApproved,
            outcome: ProbeOutcome::True,
        },
        ProbeFinding {
            probe: ProbeName::fuzzed,
            outcome: ProbeOutcome::True,
        },
    ];

    let weighed = weighed_findings(&findings, &metric);

    let expected = vec![
        WeighedFinding {
            probe: ProbeName::codeApproved,
            outcome: ProbeOutcome::True,
            weight: -3000,
        },
        WeighedFinding {
            probe: ProbeName::fuzzed,
            outcome: ProbeOutcome::True,
            weight: 2000,
        },
        WeighedFinding {
            probe: ProbeName::archived,
            outcome: ProbeOutcome::True,
            weight: 1000,
        },
    ];
    assert_eq!(weighed, expected);
}

#[test]
fn weighed_findings_contain_multiple_outcomes_of_same_probe() {
    let metric = metric_of(vec![ProbeInput {
        name: ProbeName::hasOSVVulnerabilities,
        weight: 1000,
        max_times: None,
    }]);
    let findings = vec![
        ProbeFinding {
            probe: ProbeName::hasOSVVulnerabilities,
            outcome: ProbeOutcome::True,
        },
        ProbeFinding {
            probe: ProbeName::hasOSVVulnerabilities,
            outcome: ProbeOutcome::True,
        },
    ];

    let weighed = weighed_findings(&findings, &metric);

    let expected = vec![
        WeighedFinding {
            probe: ProbeName::hasOSVVulnerabilities,
            outcome: ProbeOutcome::True,
            weight: 1000,
        },
        WeighedFinding {
            probe: ProbeName::hasOSVVulnerabilities,
            outcome: ProbeOutcome::True,
            weight: 1000,
        },
    ];
    assert_eq!(weighed, expected);
}

#[test]
fn weighed_findings_contain_multiple_outcomes_up_to_max_times() {
    let metric = metric_of(vec![ProbeInput {
        name: ProbeName::hasOSVVulnerabilities,
        weight: 1000,
        max_times: Some(2),
    }]);
    let findings = vec![
        ProbeFinding {
            probe: ProbeName::hasOSVVulnerabilities,
            outcome: ProbeOutcome::True,
        },
        ProbeFinding {
            probe: ProbeName::hasOSVVulnerabilities,
            outcome: ProbeOutcome::True,
        },
        ProbeFinding {
            probe: ProbeName::hasOSVVulnerabilities,
            outcome: ProbeOutcome::True,
        },
    ];

    let weighed = weighed_findings(&findings, &metric);

    let expected = vec![
        WeighedFinding {
            probe: ProbeName::hasOSVVulnerabilities,
            outcome: ProbeOutcome::True,
            weight: 1000,
        },
        WeighedFinding {
            probe: ProbeName::hasOSVVulnerabilities,
            outcome: ProbeOutcome::True,
            weight: 1000,
        },
    ];
    assert_eq!(weighed, expected);
}

#[test]
fn total_score_ignores_non_boolean_outcomes() {
    let findings = vec![
        WeighedFinding {
            probe: ProbeName::archived,
            outcome: ProbeOutcome::True,
            weight: 1000,
        },
        WeighedFinding {
            probe: ProbeName::codeApproved,
            outcome: ProbeOutcome::False,
            weight: 1000,
        },
        WeighedFinding {
            probe: ProbeName::fuzzed,
            outcome: ProbeOutcome::NotSupported,
            weight: 1000,
        },
    ];

    let (lowest, highest) = lowest_and_highest_possible_value(&findings);
    assert_eq!(lowest, 0);
    assert_eq!(highest, 2000);
    // The achieved 1000 out of [0, 2000] is half the norm of 10.
    let score = calculate_total_score(&findings);
    assert_eq!(score.num * 2, score.den * 10);
}

#[test]
fn total_score_is_normed() {
    let findings = vec![WeighedFinding {
        probe: ProbeName::archived,
        outcome: ProbeOutcome::True,
        weight: 1234,
    }];

    let (lowest, highest) = lowest_and_highest_possible_value(&findings);
    assert_eq!(lowest, 0);
    assert_eq!(highest, 1234);
    // The best attainable profile scores exactly 10.
    let score = calculate_total_score(&findings);
    assert_eq!(score.num, score.den * 10);
}

#[test]
fn total_score_is_normed_between_min_and_max_value() {
    let findings = vec![
        WeighedFinding {
            probe: ProbeName::archived,
            outcome: ProbeOutcome::True,
            weight: -1000,
        },
        WeighedFinding {
            probe: ProbeName::codeApproved,
            outcome: ProbeOutcome::True,
            weight: 1000,
        },
        WeighedFinding {
            probe: ProbeName::fuzzed,
            outcome: ProbeOutcome::True,
            weight: 1000,
        },
    ];

    let (lowest, highest) = lowest_and_highest_possible_value(&findings);
    assert_eq!(lowest, -1000);
    assert_eq!(highest, 2000);
    // Actual result is 1, which is 2/3 along the scale from -1 to 2.
    let score = calculate_total_score(&findings);
    assert_eq!(score.num * 3, score.den * 20);
    assert_eq!(score.score_milli(), 6666);
}

#[test]
fn total_score_can_handle_empty_findings() {
    let empty: Vec<WeighedFinding> = vec![];
    let (lowest, highest) = lowest_and_highest_possible_value(&empty);
    assert_eq!(lowest, 0);
    assert_eq!(highest, 0);
    assert_eq!(calculate_total_score(&empty), Score { num: 0, den: 1 });
}

#[test]
fn total_score_respects_findings_of_same_type() {
    let findings = vec![
        WeighedFinding {
            probe: ProbeName::archived,
            outcome: ProbeOutcome::False,
            weight: -1000,
        },
        WeighedFinding {
            probe: ProbeName::hasOSVVulnerabilities,
            outcome: ProbeOutcome::True,
            weight: -1000,
        },
        WeighedFinding {
            probe: ProbeName::hasOSVVulnerabilities,
            outcome: ProbeOutcome::True,
            weight: -1000,
        },
        WeighedFinding {
            probe: ProbeName::hasOSVVulnerabilities,
            outcome: ProbeOutcome::True,
            weight: -1000,
        },
    ];

    let (lowest, highest) = lowest_and_highest_possible_value(&findings);
    assert_eq!(lowest, -4000);
    assert_eq!(highest, 0);
    // The achieved -3000 out of [-4000, 0] is a quarter of the norm.
    let score = calculate_total_score(&findings);
    assert_eq!(score.num * 4, score.den * 10);
}

#[test]
fn all_non_boolean_findings_score_zero() {
    let findings = vec![
        WeighedFinding {
            probe: ProbeName::archived,
            outcome: ProbeOutcome::NotApplicable,
            weight: 1234,
        },
        WeighedFinding {
            probe: ProbeName::fuzzed,
            outcome: ProbeOutcome::Error,
            weight: -5000,
        },
    ];
    assert_eq!(calculate_total_score(&findings), Score { num: 0, den: 1 });
}
