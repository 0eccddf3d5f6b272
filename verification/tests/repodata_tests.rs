use secure_sum::metric::{Metric, ProbeInput};
use secure_sum::probe::{ProbeFinding, ProbeOutcome, ProbeResult, Repo};
use secure_sum::probe_name::ProbeName;
use secure_sum::repodata::{sort_repo_data, RepoData};
use secure_sum::score::Score;
use secure_sum::url::Url;

#[test]
fn repodata_is_sorted_in_descending_order() {
    let data = vec![
        RepoData {
            total_score: Score { num: 1, den: 1 },
            repo: Url("1".to_string()),
            probe_outcomes: vec![],
        },
        RepoData {
            total_score: Score { num: 2, den: 1 },
            repo: Url("2".to_string()),
            probe_outcomes: vec![],
        },
    ];
    let data = sort_repo_data(data);
    assert_eq!(data[0].repo.0, "2");
    assert_eq!(data[1].repo.0, "1");
}

#[test]
fn repo_data_weighs_scores_and_aggregates_per_probe() {
    let metric = Metric {
        error_threshold: None,
        warn_threshold: None,
        probes: vec![
            ProbeInput {
                name: ProbeName::archived,
                weight: -1000,
                max_times: None,
            },
            ProbeInput {
                name: ProbeName::fuzzed,
                weight: 1000,
                max_times: None,
            },
        ],
    };
    let result = ProbeResult {
        date: 739252,
        repo: Repo {
            name: Url("github.com/aunovis/secure_sum".to_string()),
        },
        findings: vec![
            ProbeFinding {
                probe: ProbeName::archived,
                outcome: ProbeOutcome::False,
            },
            ProbeFinding {
                probe: ProbeName::fuzzed,
                outcome: ProbeOutcome::True,
            },
        ],
        scorecard_error_message: None,
    };

    let data = RepoData::new(&result, &metric);

    assert_eq!(data.repo.0, "github.com/aunovis/secure_sum");
    // archived is False (weight -1), fuzzed is True (weight 1): the best
    // attainable profile was reached, so the score is exactly 10.
    assert_eq!(data.total_score.num, data.total_score.den * 10);
    assert_eq!(data.probe_outcomes.len(), 2);
    assert_eq!(data.probe_outcomes[0].probe, ProbeName::archived);
    assert_eq!(data.probe_outcomes[0].true_outcomes, Some(0));
    assert_eq!(data.probe_outcomes[1].probe, ProbeName::fuzzed);
    assert_eq!(data.probe_outcomes[1].true_outcomes, Some(1));
}
