use secure_sum::metric::{Metric, ProbeInput};
use secure_sum::probe::{ProbeResult, Repo};
use secure_sum::probe_name::ProbeName;
use secure_sum::scorecard::{scorecard_args, scorecard_url, should_run_probe};
use secure_sum::target::SingleTarget;
use secure_sum::url::Url;

fn example_target() -> SingleTarget {
    SingleTarget::Url(Url("https://github.com/aunovis/secure_sum".to_string()))
}

fn example_target_arg() -> String {
    "--repo=https://github.com/aunovis/secure_sum".to_string()
}

#[test]
fn scorecard_args_without_probes_is_err() {
    let metric = Metric {
        warn_threshold: None,
        error_threshold: None,
        probes: vec![],
    };

    let args_result = scorecard_args(&metric, &example_target(), None);

    assert!(args_result.is_err())
}

#[test]
fn scorecard_args_one_probe() {
    let metric = Metric {
        warn_threshold: None,
        error_threshold: None,
        probes: vec![ProbeInput {
            name: ProbeName::archived,
            weight: 1000,
            max_times: None,
        }],
    };

    let args = scorecard_args(&metric, &example_target(), None).unwrap();

    let expected = vec![
        example_target_arg(),
        "--probes=archived".to_string(),
        "--format=probe".to_string(),
    ];
    assert_eq!(args, expected);
}

#[test]
fn scorecard_args_several_probes() {
    let metric = Metric {
        warn_threshold: None,
        error_threshold: None,
        probes: vec![
            ProbeInput {
                name: ProbeName::archived,
                weight: 1000,
                max_times: None,
            },
            ProbeInput {
                name: ProbeName::fuzzed,
                weight: 1300,
                max_times: None,
            },
        ],
    };

    let args = scorecard_args(&metric, &example_target(), None).unwrap();

    let expected = vec![
        example_target_arg(),
        "--probes=archived,fuzzed".to_string(),
        "--format=probe".to_string(),
    ];
    assert_eq!(args, expected);
}

#[test]
fn scorecard_url_names_version_and_platform() {
    assert_eq!(
        scorecard_url("linux", "amd64"),
        "https://github.com/ossf/scorecard/releases/download/v5.2.1/scorecard_5.2.1_linux_amd64.tar.gz"
    );
}

#[test]
fn probes_run_when_forced_or_unknown_or_stale() {
    let metric = Metric {
        warn_threshold: None,
        error_threshold: None,
        probes: vec![ProbeInput {
            name: ProbeName::archived,
            weight: 1000,
            max_times: None,
        }],
    };
    let today: i64 = 739252;
    let fresh_error = ProbeResult {
        date: today,
        repo: Repo {
            name: Url("r".to_string()),
        },
        findings: vec![],
        scorecard_error_message: Some("failed".to_string()),
    };

    assert!(should_run_probe(false, None, &metric, today));
    assert!(should_run_probe(true, Some(&fresh_error), &metric, today));
    assert!(!should_run_probe(false, Some(&fresh_error), &metric, today));
}
