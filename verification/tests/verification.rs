use rokf::verification::rules::Rule;
use rokf::verification::{
    check_index_entry_line, concept_field_findings, format_report, format_report_with_threshold,
    is_iso_8601_date, okf_version_findings, split_frontmatter, verify_concept_document,
    verify_index_file, verify_log_file, yes_no, Finding, Severity, VerificationReport,
};

fn finding(code: &'static str, severity: Severity) -> Finding {
    Finding {
        rule_code: code,
        severity,
        message: "message".to_string(),
        document: "doc.md".to_string(),
        line: Some(1),
        column: Some(1),
    }
}

fn codes(report: &VerificationReport) -> Vec<&'static str> {
    report.findings.iter().map(|f| f.rule_code).collect()
}

#[test]
fn missing_frontmatter_is_an_error_at_the_first_line() {
    let report = verify_concept_document("customers.md", "# Customers\n");
    assert_eq!(codes(&report), vec!["OKF001"]);
    let f = &report.findings[0];
    assert_eq!(f.severity, Severity::Error);
    assert_eq!(f.document, "customers.md");
    assert_eq!((f.line, f.column), (Some(1), Some(1)));
    assert_eq!(
        f.message,
        "Concept Document must start with Frontmatter delimited by ---"
    );
    assert!(!report.is_conformant());
    assert!(format_report(&report).contains("customers.md:1:1: error [OKF001]"));
}

#[test]
fn missing_concept_type_is_an_error() {
    let report =
        verify_concept_document("customers.md", "---\ntitle: Customers\n---\n\n# Customers\n");
    assert_eq!(codes(&report), vec!["OKF002", "OKF101"]);
    assert_eq!(report.findings[0].severity, Severity::Error);
    assert_eq!(report.findings[0].line, Some(2));
    assert!(!report.is_conformant());
}

#[test]
fn malformed_frontmatter_is_an_error_with_the_parser_location() {
    let report = verify_concept_document(
        "customers.md",
        "---\ntype: BigQuery Table\ntags: [customers\n---\n\n# Customers\n",
    );
    assert_eq!(codes(&report), vec!["OKF001"]);
    let f = &report.findings[0];
    assert_eq!(f.severity, Severity::Error);
    assert!(f
        .message
        .starts_with("Concept Document Frontmatter must be parseable YAML: "));
    assert!(f.line.is_some());
    assert!(f.column.is_some());
}

#[test]
fn unclosed_frontmatter_is_reported_without_panicking() {
    for contents in ["---", "---\n", "---\ntype: Table\n", " ---"] {
        let report = verify_concept_document("customers.md", contents);
        assert_eq!(codes(&report), vec!["OKF001"]);
        assert!(report.findings[0]
            .message
            .contains("closing --- delimiter"));
    }
}

#[test]
fn healthy_concept_document_has_no_findings() {
    let report = verify_concept_document(
        "customers.md",
        "---\ntype: BigQuery Table\ndescription: Customer records.\n---\n\n# Customers\n",
    );
    assert!(report.findings.is_empty());
    assert!(report.is_conformant());
    assert!(report.is_healthy());
    assert!(report.is_success());
    assert_eq!(
        format_report(&report),
        "conformant: yes\nhealthy: yes\nOK\n"
    );
}

#[test]
fn missing_description_is_a_warning_that_keeps_conformance() {
    let report = verify_concept_document(
        "customers.md",
        "---\ntype: BigQuery Table\ntitle: Customers\n---\n\n# Customers\n",
    );
    assert_eq!(codes(&report), vec!["OKF101"]);
    assert_eq!(report.findings[0].severity, Severity::Warning);
    assert!(report.is_conformant());
    assert!(!report.is_healthy());
    assert!(!report.is_success());
    assert!(report.is_healthy_at(Severity::Error));
    assert!(report.passes_failure_threshold(Severity::Error));
    assert!(!report.passes_failure_threshold(Severity::Suggestion));
    assert_eq!(
        format_report_with_threshold(&report, Severity::Error),
        "conformant: yes\nhealthy: yes\ncustomers.md:2:1: warning [OKF101] Concept Document Frontmatter should include a Description\n"
    );
    assert!(format_report(&report).contains("healthy: no"));
}

#[test]
fn blank_or_non_string_fields_count_as_missing() {
    let report = verify_concept_document(
        "c.md",
        "---\ntype: \"   \"\ndescription: 42\n---\n",
    );
    assert_eq!(codes(&report), vec!["OKF002", "OKF101"]);
}

#[test]
fn concept_field_findings_follow_the_values() {
    let report = concept_field_findings("c.md", &Some("Table".to_string()), &None);
    assert_eq!(codes(&report), vec!["OKF101"]);
    let report = concept_field_findings("c.md", &None, &Some("x".to_string()));
    assert_eq!(codes(&report), vec!["OKF002"]);
    let report = concept_field_findings("c.md", &Some(" \t".to_string()), &Some(" ".to_string()));
    assert_eq!(codes(&report), vec!["OKF002", "OKF101"]);
    let report = concept_field_findings("c.md", &Some("T".to_string()), &Some("D".to_string()));
    assert!(report.findings.is_empty());
}

#[test]
fn nested_index_file_frontmatter_is_an_error() {
    let report = verify_index_file(
        "nested/index.md",
        "---\nokf_version: \"0.1\"\n---\n\n# Nested Index\n",
        false,
    );
    assert_eq!(codes(&report), vec!["OKF200"]);
    assert!(!report.is_conformant());
}

#[test]
fn root_index_file_may_declare_the_known_version() {
    let report = verify_index_file(
        "index.md",
        "---\nokf_version: \"0.1\"\n---\n\n# Root\n",
        true,
    );
    assert!(report.findings.is_empty());
}

#[test]
fn unknown_okf_version_is_a_warning() {
    let report = verify_index_file(
        "index.md",
        "---\nokf_version: \"9.9\"\n---\n\n# Root Index\n",
        true,
    );
    assert_eq!(codes(&report), vec!["OKF203"]);
    assert_eq!(report.findings[0].severity, Severity::Warning);
    assert_eq!(
        report.findings[0].message,
        "Root Index File declares unknown OKF version 9.9; best-effort verification will be used"
    );
    assert!(report.is_conformant());
    assert!(report.passes_failure_threshold(Severity::Error));
}

#[test]
fn non_string_okf_version_is_a_warning() {
    let report = verify_index_file("index.md", "---\nokf_version: 0.1\n---\n", true);
    assert_eq!(codes(&report), vec!["OKF203"]);
    assert_eq!(
        report.findings[0].message,
        "Root Index File okf_version should be a string"
    );
}

#[test]
fn malformed_root_index_frontmatter_is_an_error() {
    let report = verify_index_file(
        "index.md",
        "---\nokf_version: \"0.1\"\nnot yaml: [\n---\n\n# Root Index\n",
        true,
    );
    assert_eq!(codes(&report), vec!["OKF202"]);
    assert_eq!(report.findings[0].severity, Severity::Error);
    assert!(report.findings[0]
        .message
        .starts_with("Root Index File frontmatter must be parseable YAML: "));
}

#[test]
fn index_entries_without_links_are_suggestions() {
    let report = verify_index_file(
        "index.md",
        "# Concepts\n\n* [Widget](widget.md) — A concept\n  - Plain entry\n* Another\n-not an entry\n",
        false,
    );
    assert_eq!(codes(&report), vec!["OKF204", "OKF204"]);
    assert_eq!(report.findings[0].line, Some(4));
    assert_eq!(report.findings[1].line, Some(5));
    assert_eq!(report.findings[0].severity, Severity::Suggestion);
    assert!(report.is_conformant());
    assert!(report.is_healthy());
    assert!(!report.passes_failure_threshold(Severity::Suggestion));
}

#[test]
fn index_entry_checks_start_at_the_closing_delimiter_line() {
    let report = verify_index_file(
        "index.md",
        "---\nlist:\n  - item\n---\n- entry\n",
        true,
    );
    assert_eq!(codes(&report), vec!["OKF204"]);
    assert_eq!(report.findings[0].line, Some(5));
}

#[test]
fn check_index_entry_line_appends_to_findings() {
    let mut findings = vec![finding("OKF001", Severity::Error)];
    check_index_entry_line("index.md", "   * lonely", 7, &mut findings);
    check_index_entry_line("index.md", "* [ok](ok.md)", 8, &mut findings);
    check_index_entry_line("index.md", "text", 9, &mut findings);
    assert_eq!(findings.len(), 2);
    assert_eq!(findings[1].rule_code, "OKF204");
    assert_eq!(findings[1].line, Some(7));
    assert_eq!(findings[1].column, Some(1));
}

#[test]
fn okf_version_findings_cover_each_declaration() {
    assert!(okf_version_findings("index.md", &None).findings.is_empty());
    assert!(okf_version_findings("index.md", &Some(Some("0.1".to_string())))
        .findings
        .is_empty());
    assert_eq!(
        codes(&okf_version_findings("index.md", &Some(Some("2".to_string())))),
        vec!["OKF203"]
    );
    assert_eq!(
        codes(&okf_version_findings("index.md", &Some(None))),
        vec!["OKF203"]
    );
}

#[test]
fn log_file_frontmatter_is_an_error() {
    let report = verify_log_file("log.md", "---\ntype: Log\n---\n\n# Update Log\n");
    assert_eq!(codes(&report), vec!["OKF201"]);
    assert!(!report.is_conformant());
}

#[test]
fn log_file_with_iso_dates_newest_first_is_healthy() {
    let report = verify_log_file(
        "log.md",
        "# Update Log\n\n## 2026-06-13\n* **Creation**: Initialized bundle.\n\n## 2025-01-02\n",
    );
    assert!(report.findings.is_empty());
}

#[test]
fn log_file_date_format_and_order_findings() {
    let report = verify_log_file(
        "log.md",
        "# Log\n## 2024-01-01\n## June 13\n## 2025-02-30\n## 2026-13-01\n",
    );
    assert_eq!(codes(&report), vec!["OKF301", "OKF301", "OKF302"]);
    assert_eq!(report.findings[0].line, Some(3));
    assert_eq!(report.findings[0].column, Some(4));
    assert_eq!(
        report.findings[0].message,
        "Log File date heading must use ISO 8601 date format: June 13"
    );
    assert_eq!(report.findings[1].line, Some(5));
    assert_eq!(report.findings[2].line, Some(2));
    assert_eq!(report.findings[2].severity, Severity::Warning);
}

#[test]
fn iso_8601_dates() {
    assert!(is_iso_8601_date("2026-06-13"));
    assert!(is_iso_8601_date("0000-12-31"));
    assert!(!is_iso_8601_date("2026-00-13"));
    assert!(!is_iso_8601_date("2026-06-32"));
    assert!(!is_iso_8601_date("2026/06/13"));
    assert!(!is_iso_8601_date("2026-06-1"));
    assert!(!is_iso_8601_date("２026-06-13"));
}

#[test]
fn split_frontmatter_starts_on_the_closing_line() {
    assert_eq!(
        split_frontmatter("---\ntype: Table\n---\n\n# Customers\n"),
        Some(("type: Table", 2))
    );
    assert_eq!(split_frontmatter("# Customers\n"), None);
    assert_eq!(split_frontmatter("---"), None);
}

#[test]
fn report_predicates_and_extend() {
    let mut report = VerificationReport {
        findings: vec![finding("OKF204", Severity::Suggestion)],
    };
    assert!(report.is_conformant());
    assert!(report.is_success());
    assert!(!report.passes_failure_threshold(Severity::Suggestion));
    assert!(!report.is_healthy_at(Severity::Suggestion));
    report.extend(VerificationReport {
        findings: vec![finding("OKF001", Severity::Error)],
    });
    assert_eq!(report.findings.len(), 2);
    assert_eq!(report.findings[1].rule_code, "OKF001");
    assert!(!report.is_conformant());
    assert!(!report.is_healthy_at(Severity::Error));
    assert!(!report.passes_failure_threshold(Severity::Error));
}

#[test]
fn passing_a_threshold_is_being_healthy_at_it() {
    let severities = [Severity::Suggestion, Severity::Warning, Severity::Error];
    for a in severities {
        for b in severities {
            let report = VerificationReport {
                findings: vec![finding("X", a), finding("Y", b)],
            };
            for t in severities {
                assert_eq!(report.passes_failure_threshold(t), report.is_healthy_at(t));
                if report.is_healthy_at(t) {
                    assert!(report.is_conformant());
                }
            }
        }
    }
}

#[test]
fn report_text_formats_locations() {
    let mut with_line_only = finding("OKF204", Severity::Suggestion);
    with_line_only.column = None;
    with_line_only.line = Some(120);
    let mut without_location = finding("OKF101", Severity::Warning);
    without_location.line = None;
    let report = VerificationReport {
        findings: vec![with_line_only, without_location],
    };
    assert_eq!(
        format_report(&report),
        "conformant: yes\nhealthy: no\ndoc.md:120: suggestion [OKF204] message\ndoc.md: warning [OKF101] message\n"
    );
    assert_eq!(yes_no(true), "yes");
    assert_eq!(yes_no(false), "no");
}

#[test]
fn rules_carry_their_codes_and_severities() {
    let rules = [
        (Rule::ConceptFrontmatter, "OKF001", Severity::Error, true),
        (Rule::ConceptType, "OKF002", Severity::Error, true),
        (Rule::ConceptDescription, "OKF101", Severity::Warning, false),
        (Rule::ConceptTagsSorted, "OKF102", Severity::Suggestion, false),
        (Rule::IndexNoFrontmatter, "OKF200", Severity::Error, true),
        (Rule::LogNoFrontmatter, "OKF201", Severity::Error, true),
        (Rule::RootIndexFrontmatter, "OKF202", Severity::Error, true),
        (Rule::RootIndexVersion, "OKF203", Severity::Warning, false),
        (Rule::IndexEntryLink, "OKF204", Severity::Suggestion, false),
        (Rule::LogDateFormat, "OKF301", Severity::Error, true),
        (Rule::LogDateOrder, "OKF302", Severity::Warning, false),
        (Rule::BrokenLink, "OKF400", Severity::Warning, false),
        (Rule::IndexMaintenance, "OKF500", Severity::Warning, false),
    ];
    for (rule, code, severity, conformance) in rules {
        assert_eq!(rule.code(), code);
        assert_eq!(rule.severity(), severity);
        assert_eq!(rule.is_conformance_rule(), conformance);
        assert_eq!(conformance, severity == Severity::Error);
        let f = rule.finding("d.md".to_string(), "m".to_string(), Some(3), None);
        assert_eq!(f.rule_code, code);
        assert_eq!(f.severity, severity);
        assert_eq!(f.line, Some(3));
        assert_eq!(f.column, None);
    }
}

#[test]
fn severity_order_matches_at_least() {
    let severities = [Severity::Suggestion, Severity::Warning, Severity::Error];
    for a in severities {
        for b in severities {
            assert_eq!(a.at_least(b), a >= b);
        }
    }
}
