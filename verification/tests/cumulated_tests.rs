use secure_sum::cumulated_probe::{cumulated_outcomes, display_option_usize};
use secure_sum::probe::ProbeOutcome;
use secure_sum::probe_name::ProbeName;
use secure_sum::score::WeighedFinding;

#[test]
fn cumulated_outcomes_cumulates_outcomes() {
    let findings = vec![
        WeighedFinding {
            probe: ProbeName::archived,
            weight: -1000,
            outcome: ProbeOutcome::False,
        },
        WeighedFinding {
            probe: ProbeName::hasOSVVulnerabilities,
            weight: -1000,
            outcome: ProbeOutcome::True,
        },
        WeighedFinding {
            probe: ProbeName::hasOSVVulnerabilities,
            weight: -1000,
            outcome: ProbeOutcome::True,
        },
    ];

    let cumulated = cumulated_outcomes(&findings);

    assert_eq!(cumulated.len(), 2);
}

#[test]
fn cumulated_outcomes_counts_true_outcomes() {
    let findings = vec![
        WeighedFinding {
            probe: ProbeName::hasOSVVulnerabilities,
            weight: -1000,
            outcome: ProbeOutcome::True,
        },
        WeighedFinding {
            probe: ProbeName::hasOSVVulnerabilities,
            weight: -1000,
            outcome: ProbeOutcome::True,
        },
    ];

    let cumulated = cumulated_outcomes(&findings);

    assert_eq!(cumulated[0].true_outcomes.unwrap(), 2);
}

#[test]
fn cumulated_outcomes_counts_0_for_false_outcome() {
    let findings = vec![WeighedFinding {
        probe: ProbeName::hasOSVVulnerabilities,
        weight: -1000,
        outcome: ProbeOutcome::False,
    }];

    let cumulated = cumulated_outcomes(&findings);

    assert_eq!(cumulated[0].true_outcomes.unwrap(), 0);
}

#[test]
fn cumulated_outcomes_counts_none_for_non_boolean_outcome() {
    let findings = vec![WeighedFinding {
        probe: ProbeName::hasOSVVulnerabilities,
        weight: -1000,
        outcome: ProbeOutcome::NotApplicable,
    }];

    let cumulated = cumulated_outcomes(&findings);

    assert!(cumulated[0].true_outcomes.is_none());
}

#[test]
fn cumulated_outcomes_are_sorted_alphabetically() {
    let findings = vec![
        WeighedFinding {
            probe: ProbeName::blocksDeleteOnBranches,
            weight: 1000,
            outcome: ProbeOutcome::False,
        },
        WeighedFinding {
            probe: ProbeName::archived,
            weight: -1000,
            outcome: ProbeOutcome::True,
        },
        WeighedFinding {
            probe: ProbeName::hasOSVVulnerabilities,
            weight: -1000,
            outcome: ProbeOutcome::True,
        },
    ];

    let cumulated = cumulated_outcomes(&findings);

    assert_eq!(cumulated[0].probe, ProbeName::archived);
    assert_eq!(cumulated[1].probe, ProbeName::blocksDeleteOnBranches);
    assert_eq!(cumulated[2].probe, ProbeName::hasOSVVulnerabilities);
}

#[test]
fn one_false_dominates_later_true_outcomes() {
    let findings = vec![
        WeighedFinding {
            probe: ProbeName::hasOSVVulnerabilities,
            weight: -1000,
            outcome: ProbeOutcome::False,
        },
        WeighedFinding {
            probe: ProbeName::hasOSVVulnerabilities,
            weight: -1000,
            outcome: ProbeOutcome::True,
        },
        WeighedFinding {
            probe: ProbeName::hasOSVVulnerabilities,
            weight: -1000,
            outcome: ProbeOutcome::True,
        },
    ];

    let cumulated = cumulated_outcomes(&findings);

    assert_eq!(cumulated.len(), 1);
    assert_eq!(cumulated[0].true_outcomes, Some(0));
}

#[test]
fn optional_counts_render_as_numbers_or_na() {
    assert_eq!(display_option_usize(&Some(2)), "2");
    assert_eq!(display_option_usize(&Some(120)), "120");
    assert_eq!(display_option_usize(&None), "N/A");
}
