use rokf::cli::{render_report, OutputFormat};
use rokf::traversal::{verify_bundle_documents, OkfDocument};
use rokf::verification::{
    format_report_json, format_report_with_threshold, verify_concept_document, Finding, Severity,
    VerificationReport,
};

fn parse(text: &str) -> serde_yaml::Mapping {
    serde_yaml::from_str::<serde_yaml::Mapping>(text).expect("the JSON report parses")
}

fn key(name: &str) -> serde_yaml::Value {
    serde_yaml::Value::String(name.to_string())
}

#[test]
fn json_report_of_a_single_document() {
    let report = verify_concept_document("customers.md", "---\ntype: Table\n---\n\n# Customers\n");
    let json = parse(&format_report_json(&report, Severity::Warning));
    assert_eq!(json.get(key("conformant")).and_then(|v| v.as_bool()), Some(true));
    assert_eq!(json.get(key("healthy")).and_then(|v| v.as_bool()), Some(false));
    assert_eq!(json.get(key("status")).and_then(|v| v.as_str()), Some("fail"));
    let findings = json.get(key("findings")).and_then(|v| v.as_sequence()).expect("findings");
    let finding = findings[0].as_mapping().expect("an object");
    assert_eq!(finding.get(key("rule_code")).and_then(|v| v.as_str()), Some("OKF101"));
    assert_eq!(finding.get(key("severity")).and_then(|v| v.as_str()), Some("warning"));
    assert_eq!(finding.get(key("document")).and_then(|v| v.as_str()), Some("customers.md"));
    assert_eq!(finding.get(key("line")).and_then(|v| v.as_u64()), Some(2));
}

#[test]
fn json_report_of_a_passing_document_and_a_bundle() {
    let report = verify_concept_document("<stdin>", "---\ntype: Table\ndescription: Customers.\n---\n");
    assert_eq!(
        format_report_json(&report, Severity::Warning),
        "{\"conformant\":true,\"healthy\":true,\"status\":\"pass\",\"findings\":[]}\n"
    );

    let documents = vec![
        (
            OkfDocument::classify("b/index.md".to_string(), "index.md".to_string(), true, Some("index.md")),
            "# Bundle Index\n".to_string(),
        ),
        (
            OkfDocument::classify("b/orders.md".to_string(), "orders.md".to_string(), false, Some("orders.md")),
            "---\ntype: Table\ndescription: Orders.\n---\n\nSee [Customers](/customers.md).\n".to_string(),
        ),
    ];
    let paths = vec!["index.md".to_string(), "orders.md".to_string()];
    let bundle = verify_bundle_documents(&documents, &paths);
    let json = parse(&format_report_json(&bundle, Severity::Error));
    assert_eq!(json.get(key("status")).and_then(|v| v.as_str()), Some("pass"));
    let findings = json.get(key("findings")).and_then(|v| v.as_sequence()).expect("findings");
    let finding = findings[0].as_mapping().expect("an object");
    assert_eq!(finding.get(key("rule_code")).and_then(|v| v.as_str()), Some("OKF400"));
}

#[test]
fn json_strings_are_escaped_and_missing_locations_are_null() {
    let report = VerificationReport {
        findings: vec![
            Finding {
                rule_code: "OKF001",
                severity: Severity::Error,
                message: "a \"quoted\" \\ line\nnext\ttab\u{1}".to_string(),
                document: "d.md".to_string(),
                line: None,
                column: None,
            },
            Finding {
                rule_code: "OKF101",
                severity: Severity::Warning,
                message: "m".to_string(),
                document: "e.md".to_string(),
                line: Some(12),
                column: Some(3),
            },
        ],
    };
    assert_eq!(
        format_report_json(&report, Severity::Warning),
        concat_expected()
    );
}

fn concat_expected() -> String {
    let mut s = String::new();
    s.push_str("{\"conformant\":false,\"healthy\":false,\"status\":\"fail\",\"findings\":[");
    s.push_str("{\"rule_code\":\"OKF001\",\"severity\":\"error\",");
    s.push_str("\"message\":\"a \\\"quoted\\\" \\\\ line\\nnext\\ttab\\u0001\",");
    s.push_str("\"document\":\"d.md\",\"line\":null,\"column\":null},");
    s.push_str("{\"rule_code\":\"OKF101\",\"severity\":\"warning\",\"message\":\"m\",");
    s.push_str("\"document\":\"e.md\",\"line\":12,\"column\":3}]}\n");
    s
}

#[test]
fn reports_render_in_the_asked_format() {
    let report = verify_concept_document("c.md", "# No frontmatter\n");
    assert_eq!(
        render_report(&report, Severity::Warning, OutputFormat::Text),
        format_report_with_threshold(&report, Severity::Warning)
    );
    assert_eq!(
        render_report(&report, Severity::Warning, OutputFormat::Json),
        format_report_json(&report, Severity::Warning)
    );
}
