//! Findings, Verification Reports and the Verification of OKF Documents.

use vstd::prelude::*;

pub mod concept;
pub mod index;
pub mod links;
pub mod log;
pub mod report_json;
pub mod report_text;
pub mod rules;

pub use concept::{
    concept_field_findings, concept_field_findings_of, concept_findings,
    has_non_empty_string_field, is_non_empty, non_empty, verify_concept_document,
};
pub use index::{
    check_index_entry_line, declared_version, entry_finding_of, entry_findings_of,
    index_findings, index_frontmatter_findings_of, is_entry_line, mapping_declared_version,
    okf_version_findings, opt_opt_chars, verify_index_file, version_findings_of,
};
pub use log::{
    date_format_findings_of, date_order_findings_of, dated_headings, digit_value,
    heading_date, is_digit, is_iso_8601_date, is_lex_less, iso_8601_date, lex_less,
    log_findings, verify_log_file,
};
pub use report_json::{
    finding_json, findings_json, format_report_json, json_bool, json_escape, json_escaped,
    json_number, json_string, report_json,
};
pub use report_text::{
    finding_text, findings_text, format_report, format_report_with_threshold, location_text,
    report_text, severity_name, yes_no, yes_no_text,
};

use crate::document::{closed_frontmatter_of, OkfDocumentText};
use crate::text::count_newlines;
use crate::yaml;

verus! {

/// The version of the Open Knowledge Format that this library knows.
pub const KNOWN_OKF_VERSION: &'static str = "0.1";

/// How serious a Finding is; the variants are in increasing order.
#[derive(Debug, Clone, Copy, PartialEq, Eq, Structural, PartialOrd, Ord)]
pub enum Severity {
    Suggestion,
    Warning,
    Error,
}

impl Severity {
    /// Position in the order Suggestion < Warning < Error.
    pub open spec fn rank(self) -> nat {
        match self {
            Severity::Suggestion => 0,
            Severity::Warning => 1,
            Severity::Error => 2,
        }
    }

    /// `self >= threshold` in the order of the variants.
    pub fn at_least(self, threshold: Severity) -> (r: bool)
        ensures
            r == (self.rank() >= threshold.rank()),
    {
        let a: u8 = match self {
            Severity::Suggestion => 0,
            Severity::Warning => 1,
            Severity::Error => 2,
        };
        let b: u8 = match threshold {
            Severity::Suggestion => 0,
            Severity::Warning => 1,
            Severity::Error => 2,
        };
        a >= b
    }
}

/// One expectation that a Rule found unmet, located in an OKF Document.
#[derive(Debug, Clone, PartialEq, Eq)]
pub struct Finding {
    pub rule_code: &'static str,
    pub severity: Severity,
    pub message: String,
    pub document: String,
    pub line: Option<usize>,
    pub column: Option<usize>,
}

/// A Finding as plain values.
pub struct FindingView {
    pub rule_code: Seq<char>,
    pub severity: Severity,
    pub message: Seq<char>,
    pub document: Seq<char>,
    pub line: Option<usize>,
    pub column: Option<usize>,
}

impl View for Finding {
    type V = FindingView;

    open spec fn view(&self) -> FindingView {
        FindingView {
            rule_code: self.rule_code@,
            severity: self.severity,
            message: self.message@,
            document: self.document@,
            line: self.line,
            column: self.column,
        }
    }
}

impl Finding {
    /// A copy of the Finding.
    pub fn clone_finding(&self) -> (copy: Finding)
        ensures
            copy@ == self@,
    {
        Finding {
            rule_code: self.rule_code,
            severity: self.severity,
            message: self.message.clone(),
            document: self.document.clone(),
            line: self.line,
            column: self.column,
        }
    }
}

/// The Findings of a Verification, in the order they were found.
#[derive(Debug, Clone, PartialEq, Eq)]
pub struct VerificationReport {
    pub findings: Vec<Finding>,
}

impl View for VerificationReport {
    type V = Seq<FindingView>;

    open spec fn view(&self) -> Seq<FindingView> {
        self.findings@.map_values(|f: Finding| f@)
    }
}

/// No Finding is at or above the Failure Threshold.
pub open spec fn passes_threshold(findings: Seq<FindingView>, threshold: Severity) -> bool {
    forall|i: int| 0 <= i < findings.len() ==> (#[trigger] findings[i]).severity.rank() < threshold.rank()
}

/// No Finding is an error: the content meets every Conformance Rule.
pub open spec fn conformant(findings: Seq<FindingView>) -> bool {
    forall|i: int| 0 <= i < findings.len() ==> (#[trigger] findings[i]).severity != Severity::Error
}

/// Conformant, and no non-error Finding is at or above the Failure Threshold.
pub open spec fn healthy_at(findings: Seq<FindingView>, threshold: Severity) -> bool {
    &&& conformant(findings)
    &&& forall|i: int|
        0 <= i < findings.len() ==> !((#[trigger] findings[i]).severity != Severity::Error
            && findings[i].severity.rank() >= threshold.rank())
}

impl VerificationReport {
    /// Passes at the default Failure Threshold, `Warning`.
    pub fn is_success(&self) -> (r: bool)
        ensures
            r == passes_threshold(self@, Severity::Warning),
    {
        self.passes_failure_threshold(Severity::Warning)
    }

    /// No Finding has a Severity at or above `failure_threshold`.
    pub fn passes_failure_threshold(&self, failure_threshold: Severity) -> (r: bool)
        ensures
            r == passes_threshold(self@, failure_threshold),
    {
        let mut i: usize = 0;
        while i < self.findings.len()
            invariant
                i <= self.findings@.len(),
                forall|j: int| 0 <= j < i ==> (#[trigger] self@[j]).severity.rank() < failure_threshold.rank(),
            decreases self.findings@.len() - i,
        {
            if self.findings[i].severity.at_least(failure_threshold) {
                assert(self@[i as int] == self.findings@[i as int]@);
                return false;
            }
            assert(self@[i as int] == self.findings@[i as int]@);
            i = i + 1;
        }
        true
    }

    /// No Finding is an error.
    pub fn is_conformant(&self) -> (r: bool)
        ensures
            r == conformant(self@),
    {
        let mut i: usize = 0;
        while i < self.findings.len()
            invariant
                i <= self.findings@.len(),
                forall|j: int| 0 <= j < i ==> (#[trigger] self@[j]).severity != Severity::Error,
            decreases self.findings@.len() - i,
        {
            assert(self@[i as int] == self.findings@[i as int]@);
            if self.findings[i].severity == Severity::Error {
                return false;
            }
            i = i + 1;
        }
        true
    }

    /// Healthy at the default Failure Threshold, `Warning`.
    pub fn is_healthy(&self) -> (r: bool)
        ensures
            r == healthy_at(self@, Severity::Warning),
    {
        self.is_healthy_at(Severity::Warning)
    }

    /// Conformant, and no non-error Finding is at or above `failure_threshold`.
    pub fn is_healthy_at(&self, failure_threshold: Severity) -> (r: bool)
        ensures
            r == healthy_at(self@, failure_threshold),
    {
        if !self.is_conformant() {
            return false;
        }
        let mut i: usize = 0;
        while i < self.findings.len()
            invariant
                i <= self.findings@.len(),
                forall|j: int|
                    0 <= j < i ==> !((#[trigger] self@[j]).severity != Severity::Error
                        && self@[j].severity.rank() >= failure_threshold.rank()),
            decreases self.findings@.len() - i,
        {
            assert(self@[i as int] == self.findings@[i as int]@);
            let severity = self.findings[i].severity;
            if severity != Severity::Error && severity.at_least(failure_threshold) {
                return false;
            }
            i = i + 1;
        }
        true
    }

    /// Appends the Findings of `other` after those of `self`.
    pub fn extend(&mut self, other: VerificationReport)
        ensures
            final(self)@ == old(self)@ + other@,
    {
        let ghost added = other@;
        let mut other = other;
        self.findings.append(&mut other.findings);
        proof {
            assert(self@ =~= old(self)@ + added);
        }
    }
}

/// The views of a sequence of Findings.
pub open spec fn views(findings: Seq<Finding>) -> Seq<FindingView> {
    findings.map_values(|f: Finding| f@)
}

pub(crate) fn push_finding(findings: &mut Vec<Finding>, finding: Finding)
    ensures
        views(final(findings)@) == views(old(findings)@).push(finding@),
{
    findings.push(finding);
    proof {
        assert(views(findings@) =~= views(old(findings)@).push(finding@));
    }
}

pub(crate) fn report_of(findings: Vec<Finding>) -> (report: VerificationReport)
    ensures
        report@ == views(findings@),
{
    VerificationReport { findings }
}

/// The line of an optional line and column.
pub open spec fn line_of(position: Option<(usize, usize)>) -> Option<usize> {
    match position {
        Some((line, _)) => Some(line),
        None => None,
    }
}

/// The column of an optional line and column.
pub open spec fn column_of(position: Option<(usize, usize)>) -> Option<usize> {
    match position {
        Some((_, column)) => Some(column),
        None => None,
    }
}

/// Frontmatter as the Index and Log Rules see it: the raw YAML, and the index of the
/// closing delimiter line, one less than the count of line feeds before the closing
/// delimiter, plus two (that count is never zero).
pub open spec fn split_frontmatter_of(contents: Seq<char>) -> Option<(Seq<char>, nat)> {
    match closed_frontmatter_of(contents) {
        None => None,
        Some((raw, _)) => {
            let newlines = count_newlines(contents.take(raw.len() + 4int));
            Some((raw, (if newlines >= 1 { (newlines - 1) as nat } else { 0 }) + 2))
        },
    }
}

/// Frontmatter of a document, with the index of the line on which Index Files'
/// entries start to be checked.
pub fn split_frontmatter<'a>(contents: &'a str) -> (split: Option<(&'a str, usize)>)
    ensures
        match split {
            Some((raw, start)) => split_frontmatter_of(contents@) == Some((raw@, start as nat)),
            None => split_frontmatter_of(contents@) is None,
        },
{
    let text = OkfDocumentText::new(contents);
    match text.closed_frontmatter() {
        None => None,
        Some(block) => {
            let raw = block.raw();
            let body = block.body_start_index();
            proof {
                lemma_split_frontmatter_shape(contents@);
            }
            Some((raw, body - 1))
        },
    }
}

/// Where closed Frontmatter ends, and how many line feeds come before it.
pub proof fn lemma_split_frontmatter_shape(contents: Seq<char>)
    ensures
        closed_frontmatter_of(contents) matches Some((raw, body)) ==> {
            &&& count_newlines(contents.take(raw.len() + 4int)) >= 1
            &&& body == count_newlines(contents.take(raw.len() + 4int)) + 2
        },
{
    if let Some((raw, body)) = closed_frontmatter_of(contents) {
        let end = find_from_close(contents);
        crate::text::lemma_find_from(contents, crate::document::closing_marker(), 4);
        assert(raw.len() + 4 == end);
        lemma_count_newlines_prefix_opening(contents, end);
    }
}

spec fn find_from_close(contents: Seq<char>) -> int {
    crate::text::find_from(contents, crate::document::closing_marker(), 4)->0
}

proof fn lemma_count_newlines_prefix_opening(contents: Seq<char>, end: int)
    requires
        4 <= end <= contents.len(),
        crate::text::starts_with(contents, crate::document::opening_delimiter()),
    ensures
        count_newlines(contents.take(end)) >= 1,
    decreases end,
{
    if end == 4 {
        let t = contents.take(4);
        assert(t == crate::document::opening_delimiter());
        assert(t.last() == '\n');
    } else {
        lemma_count_newlines_prefix_opening(contents, end - 1);
        assert(contents.take(end).drop_last() =~= contents.take(end - 1));
    }
}

pub(crate) fn single_finding(finding: Finding) -> (report: VerificationReport)
    ensures
        report@ == seq![finding@],
{
    let mut findings: Vec<Finding> = Vec::new();
    push_finding(&mut findings, finding);
    proof {
        assert(views(findings@) =~= seq![finding@]);
    }
    report_of(findings)
}

/// The message of a YAML parse error, after a fixed lead.
pub(crate) fn parse_error_message(lead: &str, error: &serde_yaml::Error) -> (message: String)
    ensures
        message@ == lead@ + yaml::yaml_error_text(*error),
{
    let mut message = lead.to_owned();
    let detail = yaml::error_message(error);
    message.append(detail.as_str());
    message
}

} // verus!
