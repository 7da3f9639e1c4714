use rokf::check::{filter_report, RuleSet, VerificationOptions};
use rokf::document::OkfDocumentText;
use rokf::traversal::{verify_bundle_documents, verify_document, OkfDocument};
use rokf::verification::{split_frontmatter, verify_index_file, verify_log_file, Severity};

#[test]
fn split_and_closed_frontmatter_agree_on_examples() {
    for contents in [
        "---\ntype: Table\n---\n\n# Customers\n",
        "---\na: 1\nb: 2\n---",
        "---\n\n---\nbody",
        "# no frontmatter\n",
        "---\nunclosed\n",
        "---",
    ] {
        let closed = OkfDocumentText::new(contents).closed_frontmatter();
        let split = split_frontmatter(contents);
        match (closed, split) {
            (Some(block), Some((raw, start))) => {
                assert_eq!(block.raw(), raw);
                assert_eq!(block.body_start_index(), start + 1);
            }
            (None, None) => {}
            _ => panic!("disagreement on {contents:?}"),
        }
    }
}

#[test]
fn body_starts_after_the_closing_delimiter_line() {
    let contents = "---\ntitle: x\nlist:\n  - a\n---   \r\nBody one\nBody two\n";
    let document = OkfDocumentText::new(contents);
    let block = document.closed_frontmatter().expect("closed frontmatter");
    let lines = document.lines();
    assert!(lines[block.body_start_index() - 1].starts_with("---"));
    assert_eq!(
        lines[block.body_start_index()..].to_vec(),
        vec!["Body one", "Body two"]
    );
}

#[test]
fn quality_findings_never_break_conformance() {
    let index = verify_index_file(
        "index.md",
        "---\nokf_version: \"2.0\"\n---\n* no link\n",
        true,
    );
    assert_eq!(index.findings.len(), 2);
    assert!(index.is_conformant());

    let log = verify_log_file("log.md", "## 2020-01-01\n## 2021-01-01\n");
    assert_eq!(log.findings.len(), 1);
    assert!(log.is_conformant());
    assert!(!log.is_healthy());
}

#[test]
fn bundle_is_conformant_when_every_document_is() {
    let documents = vec![
        OkfDocument::classify("b/a.md".to_string(), "a.md".to_string(), false, Some("a.md")),
        OkfDocument::classify("b/log.md".to_string(), "log.md".to_string(), false, Some("log.md")),
    ];
    let good = vec![
        "---\ntype: T\ndescription: D\n---\n".to_string(),
        "## 2020-01-01\n".to_string(),
    ];
    let bad = vec![
        "---\ntype: T\ndescription: D\n---\n".to_string(),
        "## yesterday\n".to_string(),
    ];
    let pair = |contents: &Vec<String>| {
        documents
            .iter()
            .cloned()
            .zip(contents.iter().cloned())
            .collect::<Vec<_>>()
    };
    let paths = vec!["a.md".to_string(), "log.md".to_string()];
    assert!(verify_bundle_documents(&pair(&good), &paths).is_conformant());
    let report = verify_bundle_documents(&pair(&bad), &paths);
    assert!(!report.is_conformant());
    assert!(verify_document(&documents[0], &bad[0]).is_conformant());
    assert!(!verify_document(&documents[1], &bad[1]).is_conformant());
}

#[test]
fn filtering_only_removes_findings() {
    let report = verify_log_file("log.md", "---\na: 1\n---\n## 2020-01-01\n## 2021-01-01\n");
    let options = VerificationOptions {
        rule_set: RuleSet::Conformance,
        suppressions: vec!["OKF201".to_string()],
        exclusions: Vec::new(),
    };
    let filtered = filter_report(report.clone(), &options);
    assert!(filtered.findings.len() <= report.findings.len());
    assert!(filtered.findings.is_empty());
    for t in [Severity::Suggestion, Severity::Warning, Severity::Error] {
        if report.passes_failure_threshold(t) {
            assert!(filtered.passes_failure_threshold(t));
        }
    }
}
