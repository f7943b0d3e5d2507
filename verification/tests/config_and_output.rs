use open_audit::cli::Format;
use open_audit::config::{config_path, load, ConfigError};
use open_audit::finding::{AuditReport, Confidence, Finding, Location, Severity};
use open_audit::output::{emit, human_report, Output};
use open_audit::resolve::{FileView, ProbedFile};

const ROOT: &str = "/work/repo";

fn with_config(text: &str) -> FileView {
    FileView {
        files: vec![ProbedFile { path: config_path(ROOT), contents: Ok(text.to_string()) }],
    }
}

#[test]
fn config_path_is_under_oaudit() {
    assert_eq!(config_path(ROOT), "/work/repo/.oaudit/config.yml");
}

#[test]
fn no_config_file_is_no_config() {
    assert!(load(ROOT, &FileView { files: vec![] }).unwrap().is_none());
}

#[test]
fn config_fields_are_decoded() {
    let c = load(
        ROOT,
        &with_config(
            "default_against: [\"untrusted/security\", \"untrusted/supply-chain\"]\nseverity_threshold: high\nother: 1\n",
        ),
    )
    .unwrap()
    .unwrap();
    assert_eq!(c.default_against, vec!["untrusted/security", "untrusted/supply-chain"]);
    assert_eq!(c.severity_threshold.as_deref(), Some("high"));
}

#[test]
fn config_fields_default_when_absent() {
    let c = load(ROOT, &with_config("severity_threshold: ~\n")).unwrap().unwrap();
    assert!(c.default_against.is_empty());
    assert!(c.severity_threshold.is_none());
    let c = load(ROOT, &with_config("")).unwrap().unwrap();
    assert!(c.default_against.is_empty() && c.severity_threshold.is_none());
}

#[test]
fn config_with_wrong_shapes_is_invalid() {
    let err = load(ROOT, &with_config("default_against: untrusted/security\n")).unwrap_err();
    assert!(matches!(err, ConfigError::Invalid { .. }));
    assert!(err.message().starts_with("/work/repo/.oaudit/config.yml: expected a map"));
    let err = load(ROOT, &with_config("severity_threshold: [high]\n")).unwrap_err();
    assert!(matches!(err, ConfigError::Invalid { .. }));
    let err = load(ROOT, &with_config("- a\n- b\n")).unwrap_err();
    assert!(matches!(err, ConfigError::Invalid { .. }));
}

#[test]
fn config_read_and_parse_errors_are_reported() {
    let fs = FileView {
        files: vec![ProbedFile { path: config_path(ROOT), contents: Err("denied".to_string()) }],
    };
    let err = load(ROOT, &fs).unwrap_err();
    assert_eq!(err.message(), "reading /work/repo/.oaudit/config.yml: denied");
    let err = load(ROOT, &with_config("a: [unclosed\n")).unwrap_err();
    assert!(matches!(err, ConfigError::Parse { .. }));
    assert!(err.message().starts_with("parsing /work/repo/.oaudit/config.yml: "));
}

fn finding(title: &str, end_line: Option<u32>) -> Finding {
    Finding {
        id: "F1".to_string(),
        severity: Severity::High,
        confidence: Confidence::Medium,
        title: title.to_string(),
        location: Location { file: "src/a.rs".to_string(), line: 12, end_line },
        additional_locations: vec![],
        evidence: "e".to_string(),
        explanation: "why".to_string(),
        attack_path: None,
        prerequisites: vec![],
        impact: None,
        user_input: None,
        suggestion: "fix it".to_string(),
        see_also: vec![],
        benign_explanation: None,
        activation: None,
        impact_if_malicious: None,
        data_categories: vec![],
        destinations: vec![],
        regulatory_relevance: vec![],
        policy_alignment: None,
        spec: None,
    }
}

#[test]
fn human_report_lists_findings() {
    let report = AuditReport {
        findings: vec![finding("SQL injection", Some(14)), finding("Secret", None)],
        specs_run: vec!["trusted/security".to_string(), "trusted/privacy".to_string()],
        subject: "/work/repo".to_string(),
    };
    assert_eq!(
        human_report(&report),
        "oaudit report: /work/repo\nspecs: trusted/security, trusted/privacy\n2 finding(s)\n\
         \n[high] SQL injection\n  at src/a.rs:12-14\n  confidence: medium\n  why\n  suggestion: fix it\n\
         \n[high] Secret\n  at src/a.rs:12\n  confidence: medium\n  why\n  suggestion: fix it\n"
    );
}

#[test]
fn emit_picks_the_format() {
    let report = AuditReport { findings: vec![], specs_run: vec![], subject: "s".to_string() };
    assert!(matches!(emit(&report, Format::Json), Output::Json));
    match emit(&report, Format::Human) {
        Output::Text(t) => assert_eq!(t, "oaudit report: s\nspecs: \nno findings\n"),
        Output::Json => panic!("expected text"),
    }
}
