//! The Rules of Verification: each Rule has a Rule Code and a Severity, and the
//! Conformance Rules are exactly those whose Findings are errors.

use vstd::prelude::*;

use super::{Finding, FindingView, Severity};

verus! {

/// A named expectation that can produce Findings during Verification.
#[derive(Debug, Clone, Copy, PartialEq, Eq, Structural)]
pub enum Rule {
    ConceptFrontmatter,
    ConceptType,
    ConceptDescription,
    ConceptTagsSorted,
    IndexNoFrontmatter,
    LogNoFrontmatter,
    RootIndexFrontmatter,
    RootIndexVersion,
    IndexEntryLink,
    LogDateFormat,
    LogDateOrder,
    BrokenLink,
    IndexMaintenance,
}

impl Rule {
    /// The Rule Code that Findings of this Rule carry.
    pub open spec fn spec_code(self) -> Seq<char> {
        match self {
            Rule::ConceptFrontmatter => "OKF001"@,
            Rule::ConceptType => "OKF002"@,
            Rule::ConceptDescription => "OKF101"@,
            Rule::ConceptTagsSorted => "OKF102"@,
            Rule::IndexNoFrontmatter => "OKF200"@,
            Rule::LogNoFrontmatter => "OKF201"@,
            Rule::RootIndexFrontmatter => "OKF202"@,
            Rule::RootIndexVersion => "OKF203"@,
            Rule::IndexEntryLink => "OKF204"@,
            Rule::LogDateFormat => "OKF301"@,
            Rule::LogDateOrder => "OKF302"@,
            Rule::BrokenLink => "OKF400"@,
            Rule::IndexMaintenance => "OKF500"@,
        }
    }

    /// The Severity of this Rule's Findings.
    pub open spec fn spec_severity(self) -> Severity {
        match self {
            Rule::ConceptFrontmatter | Rule::ConceptType | Rule::IndexNoFrontmatter
            | Rule::LogNoFrontmatter | Rule::RootIndexFrontmatter
            | Rule::LogDateFormat => Severity::Error,
            Rule::ConceptDescription | Rule::RootIndexVersion | Rule::LogDateOrder
            | Rule::BrokenLink | Rule::IndexMaintenance => Severity::Warning,
            Rule::ConceptTagsSorted | Rule::IndexEntryLink => Severity::Suggestion,
        }
    }

    /// This Rule is one of the Conformance Rules.
    pub open spec fn spec_is_conformance_rule(self) -> bool {
        match self {
            Rule::ConceptFrontmatter | Rule::ConceptType | Rule::IndexNoFrontmatter
            | Rule::LogNoFrontmatter | Rule::RootIndexFrontmatter
            | Rule::LogDateFormat => true,
            _ => false,
        }
    }

    /// The Finding this Rule reports for `document`.
    pub open spec fn spec_finding(
        self,
        document: Seq<char>,
        message: Seq<char>,
        line: Option<usize>,
        column: Option<usize>,
    ) -> FindingView {
        FindingView {
            rule_code: self.spec_code(),
            severity: self.spec_severity(),
            message,
            document,
            line,
            column,
        }
    }

    pub fn code(self) -> (code: &'static str)
        ensures
            code@ == self.spec_code(),
    {
        match self {
            Rule::ConceptFrontmatter => "OKF001",
            Rule::ConceptType => "OKF002",
            Rule::ConceptDescription => "OKF101",
            Rule::ConceptTagsSorted => "OKF102",
            Rule::IndexNoFrontmatter => "OKF200",
            Rule::LogNoFrontmatter => "OKF201",
            Rule::RootIndexFrontmatter => "OKF202",
            Rule::RootIndexVersion => "OKF203",
            Rule::IndexEntryLink => "OKF204",
            Rule::LogDateFormat => "OKF301",
            Rule::LogDateOrder => "OKF302",
            Rule::BrokenLink => "OKF400",
            Rule::IndexMaintenance => "OKF500",
        }
    }

    pub fn severity(self) -> (severity: Severity)
        ensures
            severity == self.spec_severity(),
    {
        match self {
            Rule::ConceptFrontmatter | Rule::ConceptType | Rule::IndexNoFrontmatter
            | Rule::LogNoFrontmatter | Rule::RootIndexFrontmatter
            | Rule::LogDateFormat => Severity::Error,
            Rule::ConceptDescription | Rule::RootIndexVersion | Rule::LogDateOrder
            | Rule::BrokenLink | Rule::IndexMaintenance => Severity::Warning,
            Rule::ConceptTagsSorted | Rule::IndexEntryLink => Severity::Suggestion,
        }
    }

    pub fn is_conformance_rule(self) -> (r: bool)
        ensures
            r == self.spec_is_conformance_rule(),
    {
        match self {
            Rule::ConceptFrontmatter | Rule::ConceptType | Rule::IndexNoFrontmatter
            | Rule::LogNoFrontmatter | Rule::RootIndexFrontmatter
            | Rule::LogDateFormat => true,
            _ => false,
        }
    }

    /// A Finding of this Rule, with its Rule Code and Severity.
    pub fn finding(
        self,
        document: String,
        message: String,
        line: Option<usize>,
        column: Option<usize>,
    ) -> (finding: Finding)
        ensures
            finding@ == self.spec_finding(document@, message@, line, column),
    {
        Finding {
            rule_code: self.code(),
            severity: self.severity(),
            message,
            document,
            line,
            column,
        }
    }
}

/// The Conformance Rules are exactly the Rules whose Findings are errors, so a report
/// is conformant exactly when no Conformance Rule produced a Finding.
pub proof fn lemma_conformance_rules_are_errors(rule: Rule)
    ensures
        rule.spec_is_conformance_rule() <==> rule.spec_severity() == Severity::Error,
{
}

/// Distinct Rules have distinct Rule Codes, so a Rule Code names its Rule, and with it
/// the Severity of its Findings.
pub proof fn lemma_rule_codes_distinct(a: Rule, b: Rule)
    ensures
        a != b ==> a.spec_code() != b.spec_code(),
{
    reveal_strlit("OKF001");
    reveal_strlit("OKF002");
    reveal_strlit("OKF101");
    reveal_strlit("OKF102");
    reveal_strlit("OKF200");
    reveal_strlit("OKF201");
    reveal_strlit("OKF202");
    reveal_strlit("OKF203");
    reveal_strlit("OKF204");
    reveal_strlit("OKF301");
    reveal_strlit("OKF302");
    reveal_strlit("OKF400");
    reveal_strlit("OKF500");
    if a != b && a.spec_code() == b.spec_code() {
        assert(a.spec_code()[3] == b.spec_code()[3]);
        assert(a.spec_code()[4] == b.spec_code()[4]);
        assert(a.spec_code()[5] == b.spec_code()[5]);
    }
}

} // verus!
