use rokf::cli::{exit_for_report, template_document, Cli, Command, TemplateKind};
use rokf::verification::{verify_concept_document, Severity};

#[test]
fn exit_status_follows_the_failure_threshold() {
    let report = verify_concept_document(
        "customers.md",
        "---\ntype: BigQuery Table\ntitle: Customers\n---\n\n# Customers\n",
    );
    assert_eq!(exit_for_report(&report, Severity::Warning), 1);
    assert_eq!(exit_for_report(&report, Severity::Suggestion), 1);
    assert_eq!(exit_for_report(&report, Severity::Error), 0);
}

#[test]
fn templates_do_not_invent_domain_content() {
    let (path, contents) = template_document(TemplateKind::Concept {
        concept_type: "Warehouse Table".to_string(),
        path: "customers.md".to_string(),
    });
    assert_eq!(path, "customers.md");
    assert_eq!(contents, "---\ntype: Warehouse Table\n---\n\n# \n");
    assert!(!contents.contains("description:"));
    assert_eq!(
        template_document(TemplateKind::Index {
            path: "index.md".to_string()
        })
        .1,
        "# Index\n"
    );
    assert_eq!(
        template_document(TemplateKind::Log {
            path: "log.md".to_string()
        })
        .1,
        "# Directory Update Log\n"
    );
}

#[test]
fn concept_template_is_conformant_but_lacks_a_description() {
    let (_, contents) = template_document(TemplateKind::Concept {
        concept_type: "Table".to_string(),
        path: "t.md".to_string(),
    });
    let report = verify_concept_document("t.md", &contents);
    assert!(report.is_conformant());
    assert_eq!(report.findings.len(), 1);
    assert_eq!(report.findings[0].rule_code, "OKF101");
}

#[test]
fn cli_holds_an_optional_command() {
    let cli = Cli {
        command: Some(Command::Template {
            kind: TemplateKind::Index {
                path: "index.md".to_string(),
            },
        }),
    };
    assert!(cli.command.is_some());
    assert_eq!(Cli { command: None }.command, None);
}
