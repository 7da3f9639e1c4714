use rokf::check::{
    config_list, config_string, effective_failure_threshold, filter_report, parse_config,
    parse_rule_set, parse_severity, resolve_target, Config, RuleSet, VerificationOptions,
};
use rokf::verification::{verify_concept_document, Finding, Severity, VerificationReport};

fn finding(code: &'static str, severity: Severity) -> Finding {
    Finding {
        rule_code: code,
        severity,
        message: String::new(),
        document: "d.md".to_string(),
        line: None,
        column: None,
    }
}

#[test]
fn severities_are_parsed_by_name() {
    assert_eq!(parse_severity("error".to_string()), Some(Severity::Error));
    assert_eq!(parse_severity("warning".to_string()), Some(Severity::Warning));
    assert_eq!(
        parse_severity("suggestion".to_string()),
        Some(Severity::Suggestion)
    );
    assert_eq!(parse_severity("Error".to_string()), None);
}

#[test]
fn rule_sets_are_parsed_by_name() {
    assert_eq!(parse_rule_set(Some("conformance")), RuleSet::Conformance);
    assert_eq!(parse_rule_set(Some("default")), RuleSet::Default);
    assert_eq!(parse_rule_set(Some("other")), RuleSet::Default);
    assert_eq!(parse_rule_set(None), RuleSet::Default);
}

#[test]
fn configuration_is_read_from_yaml() {
    let config = parse_config(
        "rokf.yml",
        "failure_threshold: error\nrule_set: default\nsuppressions:\n  - OKF101\n  - 7\nexclusions:\n  - excluded.md\n",
    )
    .ok()
    .expect("configuration parses");
    assert_eq!(config.failure_threshold, Some(Severity::Error));
    assert_eq!(config.options.rule_set, RuleSet::Default);
    assert_eq!(config.options.suppressions, vec!["OKF101".to_string()]);
    assert_eq!(config.options.exclusions, vec!["excluded.md".to_string()]);

    let conformance = parse_config("rokf.yml", "failure_threshold: error\nrule_set: conformance\n")
        .ok()
        .expect("configuration parses");
    assert_eq!(conformance.options.rule_set, RuleSet::Conformance);
    assert!(conformance.options.suppressions.is_empty());
}

#[test]
fn malformed_configuration_is_an_error_naming_the_file() {
    let error = parse_config("/tmp/rokf.yml", "failure_threshold: [")
        .err()
        .expect("malformed configuration");
    assert!(error
        .message()
        .starts_with("/tmp/rokf.yml: error: Configuration must be parseable YAML: "));
}

#[test]
fn config_values_are_read_from_a_mapping() {
    let mapping: serde_yaml::Mapping =
        serde_yaml::from_str("name: x\nlist: [a, 1, b]\nscalar: 3\n").expect("mapping");
    assert_eq!(config_string(&mapping, "name"), Some("x".to_string()));
    assert_eq!(config_string(&mapping, "scalar"), None);
    assert_eq!(
        config_list(&mapping, "list"),
        vec!["a".to_string(), "b".to_string()]
    );
    assert!(config_list(&mapping, "name").is_empty());
    assert!(config_list(&mapping, "missing").is_empty());
}

#[test]
fn default_configuration_is_empty() {
    let config = Config::default();
    assert_eq!(config.failure_threshold, None);
    assert_eq!(config.options.rule_set, RuleSet::Default);
    assert!(config.options.exclusions.is_empty());
}

#[test]
fn failure_threshold_prefers_the_asked_one() {
    assert_eq!(
        effective_failure_threshold(Some(Severity::Error), Some(Severity::Suggestion)),
        Severity::Error
    );
    assert_eq!(
        effective_failure_threshold(None, Some(Severity::Suggestion)),
        Severity::Suggestion
    );
    assert_eq!(effective_failure_threshold(None, None), Severity::Warning);
}

#[test]
fn target_resolution_reports_failed_discovery() {
    assert_eq!(
        resolve_target(Some("a.md".to_string()), Some("root".to_string())).ok(),
        Some("a.md".to_string())
    );
    assert_eq!(
        resolve_target(None, Some("root".to_string())).ok(),
        Some("root".to_string())
    );
    let error = resolve_target(None, None).err().expect("no target");
    assert!(error.message().contains("could not discover"));
}

#[test]
fn suppressions_and_rule_sets_filter_findings() {
    let report = VerificationReport {
        findings: vec![
            finding("OKF002", Severity::Error),
            finding("OKF101", Severity::Warning),
            finding("OKF204", Severity::Suggestion),
        ],
    };
    let suppress = VerificationOptions {
        rule_set: RuleSet::Default,
        suppressions: vec!["OKF101".to_string()],
        exclusions: Vec::new(),
    };
    let kept = filter_report(report.clone(), &suppress);
    assert_eq!(
        kept.findings.iter().map(|f| f.rule_code).collect::<Vec<_>>(),
        vec!["OKF002", "OKF204"]
    );

    let conformance = VerificationOptions {
        rule_set: RuleSet::Conformance,
        suppressions: Vec::new(),
        exclusions: Vec::new(),
    };
    let kept = filter_report(report.clone(), &conformance);
    assert_eq!(
        kept.findings.iter().map(|f| f.rule_code).collect::<Vec<_>>(),
        vec!["OKF002"]
    );

    let everything = filter_report(report.clone(), &VerificationOptions::default());
    assert_eq!(everything, report);
}

#[test]
fn conformance_rule_set_keeps_conformance_findings_of_a_document() {
    let report = verify_concept_document("concept.md", "---\ntitle: Untyped\n---\n");
    let options = VerificationOptions {
        rule_set: RuleSet::Conformance,
        suppressions: Vec::new(),
        exclusions: Vec::new(),
    };
    let kept = filter_report(report, &options);
    assert_eq!(
        kept.findings.iter().map(|f| f.rule_code).collect::<Vec<_>>(),
        vec!["OKF002"]
    );
}
