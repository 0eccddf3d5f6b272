use secure_sum::ecosystem::Ecosystem;
use secure_sum::metric::{Metric, ProbeInput};
use secure_sum::probe::{
    current_day_number, needs_rerun, needs_rerun_now, probe_file, sanitize_filename, ProbeFinding,
    ProbeOutcome, ProbeResult, Repo,
};
use secure_sum::probe_name::ProbeName;
use secure_sum::target::SingleTarget;
use secure_sum::url::Url;

fn url_target(string: &str) -> SingleTarget {
    SingleTarget::Url(Url(string.to_owned()))
}

#[test]
fn probe_filename_removes_protocol_from_url() {
    let no_protocol = probe_file(&url_target("test.com/path"));
    let http_protocol = probe_file(&url_target("http://test.com/path"));
    let https_protocol = probe_file(&url_target("https://test.com/path"));
    assert_eq!(no_protocol, http_protocol);
    assert_eq!(no_protocol, https_protocol);
}

#[test]
fn probe_filename_adds_ecosystem() {
    let testcases = [
        (
            Ecosystem::NodeJs,
            "@xenova/transformers",
            "node_js_@xenova_transformers.json",
        ),
        (
            Ecosystem::NuGet,
            "Microsoft.Guardian.Cli",
            "nuget_microsoft_guardian_cli.json",
        ),
        (Ecosystem::Rust, "serde", "rust_serde.json"),
    ];
    for (ecosys, dep, expected) in testcases {
        let target = SingleTarget::Package(dep.to_owned(), ecosys);
        let file = probe_file(&target);
        assert_eq!(file, expected);
    }
}

#[test]
fn filenames_are_sanitized() {
    let input = "a$b?cüëçd e/f\\g";
    let expected = "a_b_c_d_e_f_g";
    let actual = sanitize_filename(input);
    assert_eq!(expected, actual);
}

#[test]
fn probe_needs_rerun_if_result_is_older_than_validity() {
    let today: i64 = 739252;
    let yesterday = today - 1;
    let yesterweek = today - 7;
    let mut probe = ProbeResult {
        date: today,
        repo: Repo {
            name: Url("Some Repo".to_string()),
        },
        findings: vec![ProbeFinding {
            probe: ProbeName::archived,
            outcome: ProbeOutcome::True,
        }],
        scorecard_error_message: None,
    };
    let metric = Metric {
        error_threshold: None,
        warn_threshold: None,
        probes: vec![ProbeInput {
            name: ProbeName::archived,
            weight: 1000,
            max_times: None,
        }],
    };

    assert!(!needs_rerun(&probe, &metric, today));

    probe.date = yesterday;
    assert!(!needs_rerun(&probe, &metric, today));

    probe.date = yesterweek;
    assert!(needs_rerun(&probe, &metric, today));
}

#[test]
fn probe_needs_rerun_if_metric_contains_probes_without_finding() {
    let today: i64 = 739252;
    let metric = Metric {
        error_threshold: None,
        warn_threshold: None,
        probes: vec![
            ProbeInput {
                name: ProbeName::archived,
                weight: 1000,
                max_times: None,
            },
            ProbeInput {
                name: ProbeName::codeApproved,
                weight: 1000,
                max_times: None,
            },
        ],
    };
    let same_findings = vec![
        ProbeFinding {
            probe: ProbeName::archived,
            outcome: ProbeOutcome::True,
        },
        ProbeFinding {
            probe: ProbeName::codeApproved,
            outcome: ProbeOutcome::True,
        },
    ];
    let other_finding = ProbeFinding {
        probe: ProbeName::fuzzed,
        outcome: ProbeOutcome::True,
    };
    let less_findings = same_findings[1..].to_vec();
    let mut more_findings = same_findings.clone();
    more_findings.push(other_finding.clone());
    let mut other_findings = same_findings.clone();
    other_findings[0] = other_finding;

    let mut probe = ProbeResult {
        date: today,
        repo: Repo {
            name: Url("Some Repo".to_string()),
        },
        findings: vec![],
        scorecard_error_message: None,
    };

    probe.findings = same_findings;
    assert!(!needs_rerun(&probe, &metric, today));
    probe.findings = less_findings;
    assert!(needs_rerun(&probe, &metric, today));
    probe.findings = more_findings;
    assert!(!needs_rerun(&probe, &metric, today));
    probe.findings = other_findings;
    assert!(needs_rerun(&probe, &metric, today));
}

#[test]
fn probe_does_not_need_rerun_if_recent_probe_is_error() {
    let today: i64 = 739252;
    let probe = ProbeResult {
        date: today,
        repo: Repo {
            name: Url("Some Repo".to_string()),
        },
        findings: vec![],
        scorecard_error_message: Some("Oof, something went wrong.".to_string()),
    };
    let metric = Metric {
        error_threshold: None,
        warn_threshold: None,
        probes: vec![ProbeInput {
            name: ProbeName::archived,
            weight: 1000,
            max_times: None,
        }],
    };

    assert!(!needs_rerun(&probe, &metric, today));
}

#[test]
fn error_record_carries_message_and_no_findings() {
    let target = url_target("https://example.com/repo");
    let record =
        ProbeResult::from_scorecard_error(&target, "runner failed".to_string(), 739252);
    assert_eq!(record.date, 739252);
    assert!(record.findings.is_empty());
    assert_eq!(
        record.scorecard_error_message,
        Some("runner failed".to_string())
    );
    assert_eq!(record.repo.name.0, "https://example.com/repo");

    let package = SingleTarget::Package("serde".to_string(), Ecosystem::Rust);
    let record = ProbeResult::from_scorecard_error(&package, "no repo".to_string(), 739252);
    assert_eq!(record.repo.name.0, "Rust: serde");
}

#[test]
fn staleness_measured_against_the_clock() {
    let today = current_day_number();
    let metric = Metric {
        error_threshold: None,
        warn_threshold: None,
        probes: vec![ProbeInput {
            name: ProbeName::archived,
            weight: 1000,
            max_times: None,
        }],
    };
    let mut probe = ProbeResult {
        date: today,
        repo: Repo {
            name: Url("Some Repo".to_string()),
        },
        findings: vec![ProbeFinding {
            probe: ProbeName::archived,
            outcome: ProbeOutcome::True,
        }],
        scorecard_error_message: None,
    };

    let (rerun, measured) = needs_rerun_now(&probe, &metric);
    assert!(!rerun);
    assert!(measured >= today);

    probe.date = today - 10;
    let (rerun, _) = needs_rerun_now(&probe, &metric);
    assert!(rerun);
}
