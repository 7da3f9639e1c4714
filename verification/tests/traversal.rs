use rokf::traversal::{
    has_file_name, is_concept_document_file, is_excluded, verification_scope,
    verify_bundle_documents, verify_document, OkfDocument, OkfDocumentKind,
};
use rokf::verification::links::verify_concept_links;
use rokf::verification::Severity;

fn document(relative: &str, is_root_index: bool) -> OkfDocument {
    let file_name = relative.rsplit('/').next();
    OkfDocument::classify(format!("b/{relative}"), relative.to_string(), is_root_index, file_name)
}

fn bundle(documents: &[(&str, bool, &str)]) -> (Vec<(OkfDocument, String)>, Vec<String>) {
    let pairs = documents
        .iter()
        .map(|(relative, root, contents)| (document(relative, *root), contents.to_string()))
        .collect::<Vec<_>>();
    let paths = documents.iter().map(|(relative, _, _)| relative.to_string()).collect();
    (pairs, paths)
}

#[test]
fn documents_are_classified_by_name_and_place() {
    let root = document("index.md", true);
    assert_eq!(root.kind(), OkfDocumentKind::RootIndexFile);
    let nested = document("n/index.md", false);
    assert_eq!(nested.kind(), OkfDocumentKind::IndexFile);
    let log = document("log.md", false);
    assert_eq!(log.kind(), OkfDocumentKind::LogFile);
    let concept = document("rex.md", false);
    assert_eq!(concept.kind(), OkfDocumentKind::ConceptDocument);
    assert!(concept.is_concept_document());
    assert!(!log.is_concept_document());
    assert_eq!(concept.path(), "b/rex.md");
    assert_eq!(concept.relative(), "rex.md");
    let unnamed = OkfDocument::classify("x".to_string(), "x".to_string(), false, None);
    assert_eq!(unnamed.kind(), OkfDocumentKind::ConceptDocument);
}

#[test]
fn file_names_and_concept_document_files() {
    assert!(has_file_name(Some("index.md"), "index.md"));
    assert!(!has_file_name(Some("Index.md"), "index.md"));
    assert!(!has_file_name(None, "index.md"));
    assert!(is_concept_document_file(Some("md"), Some("a.md")));
    assert!(!is_concept_document_file(Some("md"), Some("index.md")));
    assert!(!is_concept_document_file(Some("md"), Some("log.md")));
    assert!(!is_concept_document_file(Some("txt"), Some("a.txt")));
    assert!(!is_concept_document_file(None, Some("README")));
}

#[test]
fn exclusions_cover_paths_and_their_prefixes() {
    let exclusions = vec!["excluded.md".to_string(), "drafts".to_string()];
    assert!(is_excluded("excluded.md", &exclusions));
    assert!(is_excluded("drafts/a.md", &exclusions));
    assert!(!is_excluded("included.md", &exclusions));
    assert!(!is_excluded("excluded.md", &Vec::new()));
}

#[test]
fn verification_scope_leaves_out_excluded_documents() {
    let documents = vec![(document("excluded.md", false), 1u8), (document("included.md", false), 2u8)];
    let scope = verification_scope(documents, &vec!["excluded.md".to_string()]);
    assert_eq!(scope.len(), 1);
    assert_eq!(scope[0].0.path(), "b/included.md");
    assert_eq!(scope[0].1, 2);
}

#[test]
fn bundle_verification_verifies_each_document_by_kind() {
    let (pairs, paths) = bundle(&[
        ("index.md", true, "# Clone Intelligence\n"),
        ("log.md", false, "# Log\n"),
        ("squads/rex.md", false, "---\ntype: Person\ndescription: Clone captain.\n---\n\n# Captain Rex\n"),
        ("squads/torrent.md", false, "# Torrent Company\n"),
    ]);
    let report = verify_bundle_documents(&pairs, &paths);
    assert_eq!(report.findings.len(), 1);
    assert_eq!(report.findings[0].rule_code, "OKF001");
    assert_eq!(report.findings[0].document, "b/squads/torrent.md");
    assert!(!report.is_conformant());

    let single = verify_document(&pairs[1].0, "---\ntype: Log\n---\n");
    assert_eq!(single.findings[0].rule_code, "OKF201");
}

#[test]
fn reserved_files_are_not_checked_as_concept_documents() {
    let (pairs, paths) = bundle(&[
        ("index.md", true, "# Clone Intelligence\n"),
        ("log.md", false, "# Log\n"),
    ]);
    let report = verify_bundle_documents(&pairs, &paths);
    assert!(report.findings.is_empty());
    assert!(report.is_success());
}

#[test]
fn bundle_check_reports_broken_concept_links_as_warnings() {
    let (pairs, paths) = bundle(&[
        ("index.md", true, "# Bundle Index\n"),
        (
            "orders.md",
            false,
            "---\ntype: Table\ndescription: Orders.\n---\n\nSee [Customers](/customers.md) and [Docs](https://example.com).\n",
        ),
    ]);
    let report = verify_bundle_documents(&pairs, &paths);
    assert_eq!(report.findings.len(), 1);
    let finding = &report.findings[0];
    assert_eq!(finding.rule_code, "OKF400");
    assert_eq!(finding.severity, Severity::Warning);
    assert_eq!(finding.document, "b/orders.md");
    assert_eq!(
        finding.message,
        "Concept Link target does not exist in the Knowledge Bundle: /customers.md"
    );
    assert_eq!(finding.line, Some(6));
    assert_eq!(finding.column, Some(17));
    assert!(report.findings.iter().all(|f| !f.message.contains("example.com")));
    assert!(report.passes_failure_threshold(Severity::Error));
    assert!(report.is_conformant());
    assert!(!report.is_success());
}

#[test]
fn bundle_check_resolves_relative_and_bundle_relative_concept_links() {
    let (pairs, paths) = bundle(&[
        ("index.md", true, "# Bundle Index\n"),
        ("customers.md", false, "---\ntype: Table\ndescription: Customers.\n---\n"),
        ("catalog/inventory.md", false, "---\ntype: Table\ndescription: Inventory.\n---\n"),
        (
            "catalog/orders.md",
            false,
            "---\ntype: Table\ndescription: Orders.\n---\n\nSee [Inventory](inventory.md) and [Customers](/customers.md).\n",
        ),
    ]);
    let report = verify_bundle_documents(&pairs, &paths);
    assert!(report.findings.is_empty());
}

#[test]
fn document_check_does_not_report_broken_links_in_isolation() {
    let orders = document("orders.md", false);
    let report = verify_document(
        &orders,
        "---\ntype: Table\ndescription: Orders.\n---\n\nSee [Customers](/customers.md).\n",
    );
    assert!(report.findings.is_empty());
}

#[test]
fn links_resolve_through_dot_segments_and_fragments() {
    let paths = vec!["customers.md".to_string(), "catalog/orders.md".to_string()];
    let contents = "[Up](../customers.md) [Here](./orders.md#totals) [Anchor](#top)\n\
        [Mail](mailto:a@b.c) [Image](chart.png) [Escape](../../x.md)\n\
        [Missing](missing.md)\n";
    let report = verify_concept_links("b/catalog/orders.md", "catalog/orders.md", contents, &paths);
    let found = report
        .findings
        .iter()
        .map(|f| (f.message.clone(), f.line, f.column))
        .collect::<Vec<_>>();
    assert_eq!(
        found,
        vec![
            (
                "Concept Link target does not exist in the Knowledge Bundle: ../../x.md".to_string(),
                Some(2),
                Some(50),
            ),
            (
                "Concept Link target does not exist in the Knowledge Bundle: missing.md".to_string(),
                Some(3),
                Some(11),
            ),
        ]
    );
}

#[test]
fn broken_links_never_break_bundle_conformance() {
    let (pairs, paths) = bundle(&[
        ("a.md", false, "---\ntype: T\ndescription: D\n---\n[B](b.md) [C](c.md)\n"),
        ("log.md", false, "## 2020-01-01\n"),
    ]);
    let report = verify_bundle_documents(&pairs, &paths);
    assert_eq!(report.findings.len(), 2);
    assert!(report.findings.iter().all(|f| f.rule_code == "OKF400"));
    assert!(report.is_conformant());
}
