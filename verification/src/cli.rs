//! The `rokf` command line as plain values, and the decisions of its commands that do
//! not touch the file system: exit statuses and Document Templates.
//!
//! The command line carries the `check` and `template` commands; the text of paths is
//! carried as strings.

use vstd::prelude::*;

use crate::verification::{
    format_report_json, format_report_with_threshold, passes_threshold, report_json, report_text,
    Severity, VerificationReport,
};

verus! {

/// The Document Template to create, and where.
#[derive(Debug, Clone, PartialEq, Eq)]
pub enum TemplateKind {
    /// A Concept Document of the Producer-defined Concept Type.
    Concept { concept_type: String, path: String },
    /// An Index File.
    Index { path: String },
    /// A Log File.
    Log { path: String },
}

/// How a Check prints its report.
#[derive(Debug, Clone, Copy, PartialEq, Eq, Structural)]
pub enum OutputFormat {
    /// The text report.
    Text,
    /// The JSON report, for tools and agents.
    Json,
}

/// A `rokf` command.
#[derive(Debug, Clone, PartialEq, Eq)]
pub enum Command {
    /// Verify OKF content and report Findings: a Concept Document, an explicit Bundle
    /// Root, `-` for stdin, or, when no target is given, the discovered Bundle Root.
    Check {
        config: Option<String>,
        failure_threshold: Option<Severity>,
        output: OutputFormat,
        target: Option<String>,
    },
    /// Create a Document Template.
    Template { kind: TemplateKind },
}

/// The parsed `rokf` command line.
#[derive(Debug, Clone, PartialEq, Eq)]
pub struct Cli {
    pub command: Option<Command>,
}

/// The exit status of a Check: 0 when the report passes the Failure Threshold, else 1.
pub fn exit_for_report(report: &VerificationReport, failure_threshold: Severity) -> (status:
    u8)
    ensures
        status == (if passes_threshold(report@, failure_threshold) {
            0u8
        } else {
            1u8
        }),
{
    if report.passes_failure_threshold(failure_threshold) {
        0
    } else {
        1
    }
}

/// The text of a Concept Document template: Frontmatter with the given Concept Type
/// and nothing invented, then an empty title.
pub open spec fn concept_template_text(concept_type: Seq<char>) -> Seq<char> {
    "---\ntype: "@ + concept_type + "\n---\n\n# \n"@
}

/// The path and text of a Document Template.
pub open spec fn template_of(kind: TemplateKind) -> (Seq<char>, Seq<char>) {
    match kind {
        TemplateKind::Concept { concept_type, path } => (
            path@,
            concept_template_text(concept_type@),
        ),
        TemplateKind::Index { path } => (path@, "# Index\n"@),
        TemplateKind::Log { path } => (path@, "# Directory Update Log\n"@),
    }
}

/// The path and text of a Document Template.
pub fn template_document(kind: TemplateKind) -> (document: (String, String))
    ensures
        (document.0@, document.1@) == template_of(kind),
{
    match kind {
        TemplateKind::Concept { concept_type, path } => {
            let mut contents = "---\ntype: ".to_owned();
            contents.append(concept_type.as_str());
            contents.append("\n---\n\n# \n");
            (path, contents)
        },
        TemplateKind::Index { path } => (path, "# Index\n".to_owned()),
        TemplateKind::Log { path } => (path, "# Directory Update Log\n".to_owned()),
    }
}

/// The report of a Check in the asked format, at the Failure Threshold.
pub fn render_report(report: &VerificationReport, failure_threshold: Severity, output: OutputFormat) -> (text:
    String)
    ensures
        text@ == match output {
            OutputFormat::Text => report_text(report@, failure_threshold),
            OutputFormat::Json => report_json(report@, failure_threshold),
        },
{
    match output {
        OutputFormat::Text => format_report_with_threshold(report, failure_threshold),
        OutputFormat::Json => format_report_json(report, failure_threshold),
    }
}

} // verus!
