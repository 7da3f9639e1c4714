//! Laws of Verification that span several functions: how Failure Thresholds,
//! conformance and health relate, how reports compose, that every Finding comes from a
//! Rule, and how the two readings of Frontmatter agree.

use vstd::prelude::*;

use crate::check::{kept, kept_findings};
use crate::document::{closed_frontmatter_of, has_opening};
use crate::text::{
    count_newlines, find_from, lemma_find_from, lemma_first_line_starts_with_delimiter,
    lemma_lines_skip, lines, starts_with,
};
use crate::traversal::{
    bundle_document_findings, bundle_findings, document_findings, OkfDocument, OkfDocumentKind,
};
use crate::verification::links::{
    broken_link_findings_of, is_broken_link, is_concept_link, line_links, link_findings,
    link_path, link_target, lines_link_findings, normalize_segments, path_segments, seg_end,
};
use crate::verification::{dated_headings, digit_value, is_entry_line, lex_less};
use crate::verification::rules::Rule;
use crate::verification::{
    concept_field_findings_of, concept_findings, conformant, date_format_findings_of, heading_date,
    iso_8601_date,
    date_order_findings_of, entry_finding_of, entry_findings_of, healthy_at,
    index_frontmatter_findings_of, index_findings, lemma_split_frontmatter_shape, log_findings,
    non_empty, passes_threshold, split_frontmatter_of, version_findings_of, FindingView, Severity,
};
use crate::yaml;

verus! {

/// A report passes a Failure Threshold exactly when it is healthy at that threshold:
/// an error fails every threshold and breaks conformance, and a quality Finding fails
/// the thresholds at or below its Severity.
pub proof fn lemma_passes_iff_healthy(findings: Seq<FindingView>, threshold: Severity)
    ensures
        passes_threshold(findings, threshold) == healthy_at(findings, threshold),
{
    if passes_threshold(findings, threshold) {
        assert forall|i: int| 0 <= i < findings.len() implies (#[trigger] findings[i]).severity
            != Severity::Error by {
            assert(findings[i].severity.rank() < threshold.rank());
        }
    }
    if healthy_at(findings, threshold) {
        assert forall|i: int| 0 <= i < findings.len() implies (
        #[trigger] findings[i]).severity.rank() < threshold.rank() by {
            assert(findings[i].severity != Severity::Error);
        }
    }
}

/// Health implies conformance: the Failure Threshold never redefines conformance.
pub proof fn lemma_healthy_is_conformant(findings: Seq<FindingView>, threshold: Severity)
    ensures
        healthy_at(findings, threshold) ==> conformant(findings),
{
}

/// A report that passes a Failure Threshold passes every higher one, and a report
/// healthy at a threshold is healthy at every higher one.
pub proof fn lemma_threshold_monotone(findings: Seq<FindingView>, low: Severity, high: Severity)
    requires
        low.rank() <= high.rank(),
    ensures
        passes_threshold(findings, low) ==> passes_threshold(findings, high),
        healthy_at(findings, low) ==> healthy_at(findings, high),
{
}

/// Every report passes the `Error` threshold exactly when it is conformant.
pub proof fn lemma_error_threshold_is_conformance(findings: Seq<FindingView>)
    ensures
        passes_threshold(findings, Severity::Error) == conformant(findings),
{
}

/// Extending a report with another: the result passes a threshold, is conformant, or
/// is healthy exactly when both parts are.
pub proof fn lemma_extend_composes(a: Seq<FindingView>, b: Seq<FindingView>, threshold: Severity)
    ensures
        passes_threshold(a + b, threshold) == (passes_threshold(a, threshold) && passes_threshold(
            b,
            threshold,
        )),
        conformant(a + b) == (conformant(a) && conformant(b)),
        healthy_at(a + b, threshold) == (healthy_at(a, threshold) && healthy_at(b, threshold)),
{
    let c = a + b;
    assert forall|i: int| 0 <= i < b.len() implies #[trigger] b[i] == c[a.len() + i] by {}
    assert forall|i: int| 0 <= i < a.len() implies #[trigger] a[i] == c[i] by {}
    if passes_threshold(a, threshold) && passes_threshold(b, threshold) {
        assert forall|i: int| 0 <= i < c.len() implies (#[trigger] c[i]).severity.rank()
            < threshold.rank() by {
            if i >= a.len() {
                assert(c[i] == b[i - a.len()]);
            }
        }
    }
    if conformant(a) && conformant(b) {
        assert forall|i: int| 0 <= i < c.len() implies (#[trigger] c[i]).severity
            != Severity::Error by {
            if i >= a.len() {
                assert(c[i] == b[i - a.len()]);
            }
        }
    }
    if healthy_at(a, threshold) && healthy_at(b, threshold) {
        assert forall|i: int| 0 <= i < c.len() implies !((#[trigger] c[i]).severity
            != Severity::Error && c[i].severity.rank() >= threshold.rank()) by {
            if i >= a.len() {
                assert(c[i] == b[i - a.len()]);
            }
        }
    }
}

/// A Finding comes from some Rule: it carries that Rule's Code and Severity, and it
/// names `document`.
pub open spec fn from_rule(finding: FindingView, document: Seq<char>) -> bool {
    exists|rule: Rule|
        finding.rule_code == rule.spec_code() && finding.severity == rule.spec_severity()
            && finding.document == document
}

/// Every Finding of the sequence comes from a Rule and names `document`.
pub open spec fn all_from_rules(findings: Seq<FindingView>, document: Seq<char>) -> bool {
    forall|i: int| 0 <= i < findings.len() ==> from_rule(#[trigger] findings[i], document)
}

proof fn lemma_from_rules_concat(a: Seq<FindingView>, b: Seq<FindingView>, document: Seq<char>)
    requires
        all_from_rules(a, document),
        all_from_rules(b, document),
    ensures
        all_from_rules(a + b, document),
{
    assert forall|i: int| 0 <= i < (a + b).len() implies from_rule(
        #[trigger] (a + b)[i],
        document,
    ) by {
        if i < a.len() {
            assert((a + b)[i] == a[i]);
        } else {
            assert((a + b)[i] == b[i - a.len()]);
        }
    }
}

proof fn lemma_single_from_rule(
    rule: Rule,
    document: Seq<char>,
    message: Seq<char>,
    line: Option<usize>,
    column: Option<usize>,
)
    ensures
        all_from_rules(seq![rule.spec_finding(document, message, line, column)], document),
{
    let s = seq![rule.spec_finding(document, message, line, column)];
    assert forall|i: int| 0 <= i < s.len() implies from_rule(#[trigger] s[i], document) by {
        assert(s[i].rule_code == rule.spec_code());
    }
}

proof fn lemma_empty_from_rules(document: Seq<char>)
    ensures
        all_from_rules(Seq::<FindingView>::empty(), document),
{
}

proof fn lemma_concept_fields_from_rules(
    document: Seq<char>,
    concept_type: Option<Seq<char>>,
    description: Option<Seq<char>>,
)
    ensures
        all_from_rules(concept_field_findings_of(document, concept_type, description), document),
{
    lemma_single_from_rule(
        Rule::ConceptType,
        document,
        "Concept Document Frontmatter must include a Concept Type"@,
        Some(2),
        Some(1),
    );
    lemma_single_from_rule(
        Rule::ConceptDescription,
        document,
        "Concept Document Frontmatter should include a Description"@,
        Some(2),
        Some(1),
    );
    lemma_empty_from_rules(document);
    let a = if non_empty(concept_type) {
        Seq::<FindingView>::empty()
    } else {
        seq![
            Rule::ConceptType.spec_finding(
                document,
                "Concept Document Frontmatter must include a Concept Type"@,
                Some(2),
                Some(1),
            ),
        ]
    };
    let b = if non_empty(description) {
        Seq::<FindingView>::empty()
    } else {
        seq![
            Rule::ConceptDescription.spec_finding(
                document,
                "Concept Document Frontmatter should include a Description"@,
                Some(2),
                Some(1),
            ),
        ]
    };
    lemma_from_rules_concat(a, b, document);
    assert(concept_field_findings_of(document, concept_type, description) == a + b);
}

/// Every Finding of Document Verification of a Concept Document comes from a Rule
/// and names the document.
pub proof fn lemma_concept_findings_from_rules(document: Seq<char>, contents: Seq<char>)
    ensures
        all_from_rules(concept_findings(document, contents), document),
{
    let f = concept_findings(document, contents);
    if !has_opening(contents) || closed_frontmatter_of(contents) is None {
        assert forall|i: int| 0 <= i < f.len() implies from_rule(#[trigger] f[i], document) by {
            assert(f[i].rule_code == Rule::ConceptFrontmatter.spec_code());
        }
    } else {
        let raw = match closed_frontmatter_of(contents) {
            Some((raw, _)) => raw,
            None => Seq::empty(),
        };
        match yaml::yaml_parse(raw) {
            Err(_) => {
                assert forall|i: int| 0 <= i < f.len() implies from_rule(
                    #[trigger] f[i],
                    document,
                ) by {
                    assert(f[i].rule_code == Rule::ConceptFrontmatter.spec_code());
                }
            },
            Ok(mapping) => {
                lemma_concept_fields_from_rules(
                    document,
                    yaml::string_field(mapping, "type"@),
                    yaml::string_field(mapping, "description"@),
                );
            },
        }
    }
}

proof fn lemma_entry_findings_from_rules(
    document: Seq<char>,
    ls: Seq<Seq<char>>,
    from: nat,
    upto: nat,
)
    ensures
        all_from_rules(entry_findings_of(document, ls, from, upto), document),
    decreases upto,
{
    if upto > from {
        lemma_entry_findings_from_rules(document, ls, from, (upto - 1) as nat);
        let e = entry_finding_of(document, ls[upto - 1], upto);
        assert(all_from_rules(e, document)) by {
            assert forall|i: int| 0 <= i < e.len() implies from_rule(#[trigger] e[i], document) by {
                assert(e[i].rule_code == Rule::IndexEntryLink.spec_code());
            }
        }
        lemma_from_rules_concat(
            entry_findings_of(document, ls, from, (upto - 1) as nat),
            e,
            document,
        );
    }
}

/// Every Finding of Document Verification of an Index File comes from a Rule and
/// names the document.
pub proof fn lemma_index_findings_from_rules(
    document: Seq<char>,
    contents: Seq<char>,
    is_root: bool,
)
    ensures
        all_from_rules(index_findings(document, contents, is_root), document),
{
    let ls = crate::text::lines(contents);
    match split_frontmatter_of(contents) {
        Some((raw, start)) => {
            let h = index_frontmatter_findings_of(document, raw, is_root);
            assert(all_from_rules(h, document)) by {
                assert forall|i: int| 0 <= i < h.len() implies from_rule(#[trigger] h[i], document) by {
                    if !is_root {
                        assert(h[i].rule_code == Rule::IndexNoFrontmatter.spec_code());
                    } else {
                        match yaml::yaml_parse(raw) {
                            Err(_) => {
                                assert(h[i].rule_code == Rule::RootIndexFrontmatter.spec_code());
                            },
                            Ok(_) => {
                                assert(h[i].rule_code == Rule::RootIndexVersion.spec_code());
                            },
                        }
                    }
                }
            }
            lemma_entry_findings_from_rules(document, ls, start, ls.len());
            lemma_from_rules_concat(h, entry_findings_of(document, ls, start, ls.len()), document);
        },
        None => {
            lemma_entry_findings_from_rules(document, ls, 0, ls.len());
        },
    }
}

proof fn lemma_date_format_from_rules(document: Seq<char>, ls: Seq<Seq<char>>, n: nat)
    ensures
        all_from_rules(date_format_findings_of(document, ls, n), document),
    decreases n,
{
    if n > 0 {
        lemma_date_format_from_rules(document, ls, (n - 1) as nat);
        let all = date_format_findings_of(document, ls, n);
        let prev = date_format_findings_of(document, ls, (n - 1) as nat);
        assert forall|i: int| 0 <= i < all.len() implies from_rule(#[trigger] all[i], document) by {
            if i < prev.len() {
                assert(all[i] == prev[i]);
            } else {
                assert(all[i].rule_code == Rule::LogDateFormat.spec_code());
            }
        }
    }
}

proof fn lemma_date_order_from_rules(
    document: Seq<char>,
    dates: Seq<(Seq<char>, nat)>,
    n: nat,
)
    ensures
        all_from_rules(date_order_findings_of(document, dates, n), document),
    decreases n,
{
    if n > 0 {
        lemma_date_order_from_rules(document, dates, (n - 1) as nat);
        let all = date_order_findings_of(document, dates, n);
        let prev = date_order_findings_of(document, dates, (n - 1) as nat);
        assert forall|i: int| 0 <= i < all.len() implies from_rule(#[trigger] all[i], document) by {
            if i < prev.len() {
                assert(all[i] == prev[i]);
            } else {
                assert(all[i].rule_code == Rule::LogDateOrder.spec_code());
            }
        }
    }
}

/// Every Finding of Document Verification of a Log File comes from a Rule and names
/// the document.
pub proof fn lemma_log_findings_from_rules(document: Seq<char>, contents: Seq<char>)
    ensures
        all_from_rules(log_findings(document, contents), document),
{
    let ls = crate::text::lines(contents);
    let dates = crate::verification::dated_headings(ls, ls.len());
    let h = if split_frontmatter_of(contents) is Some {
        seq![
            Rule::LogNoFrontmatter.spec_finding(
                document,
                "Log File must not contain frontmatter"@,
                Some(1),
                Some(1),
            ),
        ]
    } else {
        Seq::<FindingView>::empty()
    };
    lemma_single_from_rule(
        Rule::LogNoFrontmatter,
        document,
        "Log File must not contain frontmatter"@,
        Some(1),
        Some(1),
    );
    lemma_date_format_from_rules(document, ls, ls.len());
    lemma_date_order_from_rules(document, dates, dates.len());
    lemma_from_rules_concat(h, date_format_findings_of(document, ls, ls.len()), document);
    lemma_from_rules_concat(
        h + date_format_findings_of(document, ls, ls.len()),
        date_order_findings_of(document, dates, dates.len()),
        document,
    );
}

/// Every Finding of Document Verification, whatever the kind of document, comes from
/// a Rule and names the document.
pub proof fn lemma_document_findings_from_rules(
    kind: OkfDocumentKind,
    document: Seq<char>,
    contents: Seq<char>,
)
    ensures
        all_from_rules(document_findings(kind, document, contents), document),
{
    reveal(document_findings);
    match kind {
        OkfDocumentKind::RootIndexFile => lemma_index_findings_from_rules(document, contents, true),
        OkfDocumentKind::IndexFile => lemma_index_findings_from_rules(document, contents, false),
        OkfDocumentKind::LogFile => lemma_log_findings_from_rules(document, contents),
        OkfDocumentKind::ConceptDocument => lemma_concept_findings_from_rules(document, contents),
    }
}

/// A report whose Findings all come from Rules is conformant exactly when no
/// Conformance Rule produced a Finding.
pub proof fn lemma_conformant_iff_no_conformance_rule(
    findings: Seq<FindingView>,
    document: Seq<char>,
)
    requires
        all_from_rules(findings, document),
    ensures
        conformant(findings) <==> forall|i: int|
            0 <= i < findings.len() ==> forall|rule: Rule|
                (#[trigger] findings[i]).rule_code == rule.spec_code()
                    ==> !rule.spec_is_conformance_rule(),
{
    if conformant(findings) {
        assert forall|i: int| 0 <= i < findings.len() implies forall|rule: Rule|
            (#[trigger] findings[i]).rule_code == rule.spec_code()
                ==> !rule.spec_is_conformance_rule() by {
            let witness = choose|r: Rule|
                findings[i].rule_code == r.spec_code() && findings[i].severity
                    == r.spec_severity() && findings[i].document == document;
            assert forall|rule: Rule| findings[i].rule_code == rule.spec_code() implies
                !rule.spec_is_conformance_rule() by {
                crate::verification::rules::lemma_rule_codes_distinct(rule, witness);
            }
        }
    } else {
        let i = choose|i: int| 0 <= i < findings.len() && findings[i].severity == Severity::Error;
        assert(from_rule(findings[i], document));
        let witness = choose|r: Rule|
            findings[i].rule_code == r.spec_code() && findings[i].severity == r.spec_severity()
                && findings[i].document == document;
        assert(witness.spec_is_conformance_rule());
    }
}

/// The Frontmatter opens, closes, parses as a YAML mapping and names a Concept Type.
pub open spec fn concept_frontmatter_conforms(contents: Seq<char>) -> bool {
    has_opening(contents) && match closed_frontmatter_of(contents) {
        Some((raw, _)) => match yaml::yaml_parse(raw) {
            Ok(mapping) => non_empty(yaml::string_field(mapping, "type"@)),
            Err(_) => false,
        },
        None => false,
    }
}

/// A Concept Document is conformant exactly when its Frontmatter opens, closes,
/// parses as a YAML mapping and names a Concept Type: a missing Description is a
/// quality Finding only.
pub proof fn lemma_concept_conformance(document: Seq<char>, contents: Seq<char>)
    ensures
        conformant(concept_findings(document, contents)) == concept_frontmatter_conforms(contents),
{
    let f = concept_findings(document, contents);
    if has_opening(contents) && closed_frontmatter_of(contents) is Some {
        let raw = match closed_frontmatter_of(contents) {
            Some((raw, _)) => raw,
            None => Seq::empty(),
        };
        if let Ok(mapping) = yaml::yaml_parse(raw) {
            if !non_empty(yaml::string_field(mapping, "type"@)) {
                assert(f[0].severity == Severity::Error);
            }
        } else {
            assert(f[0].severity == Severity::Error);
        }
    } else {
        assert(f[0].severity == Severity::Error);
    }
}

proof fn lemma_entry_findings_conformant(document: Seq<char>, ls: Seq<Seq<char>>, from: nat, upto: nat)
    ensures
        conformant(entry_findings_of(document, ls, from, upto)),
    decreases upto,
{
    if upto > from {
        lemma_entry_findings_conformant(document, ls, from, (upto - 1) as nat);
        let e = entry_finding_of(document, ls[upto - 1], upto);
        assert(conformant(e)) by {
            assert forall|i: int| 0 <= i < e.len() implies (#[trigger] e[i]).severity
                != Severity::Error by {}
        }
        lemma_extend_composes(
            entry_findings_of(document, ls, from, (upto - 1) as nat),
            e,
            Severity::Error,
        );
    }
}

/// An Index File is conformant exactly when it has no closed Frontmatter, or it is the
/// Root Index File and its Frontmatter parses: entries without links and unknown OKF
/// versions are quality Findings only.
pub proof fn lemma_index_conformance(document: Seq<char>, contents: Seq<char>, is_root: bool)
    ensures
        conformant(index_findings(document, contents, is_root)) == match split_frontmatter_of(
            contents,
        ) {
            None => true,
            Some((raw, _)) => is_root && yaml::yaml_parse(raw) is Ok,
        },
{
    let ls = lines(contents);
    match split_frontmatter_of(contents) {
        None => {
            lemma_entry_findings_conformant(document, ls, 0, ls.len());
        },
        Some((raw, start)) => {
            let h = index_frontmatter_findings_of(document, raw, is_root);
            lemma_entry_findings_conformant(document, ls, start, ls.len());
            lemma_extend_composes(h, entry_findings_of(document, ls, start, ls.len()), Severity::Error);
            if is_root && yaml::yaml_parse(raw) is Ok {
                let v = h;
                assert(conformant(v)) by {
                    assert forall|i: int| 0 <= i < v.len() implies (#[trigger] v[i]).severity
                        != Severity::Error by {}
                }
            } else {
                assert(h[0].severity == Severity::Error);
            }
        },
    }
}

/// Every date heading among the lines with index below `n` is in ISO 8601 form.
pub open spec fn headings_well_formed(ls: Seq<Seq<char>>, n: nat) -> bool {
    forall|i: int|
        0 <= i < n ==> match heading_date(#[trigger] ls[i]) {
            Some(date) => iso_8601_date(date),
            None => true,
        }
}

proof fn lemma_date_format_conformance(document: Seq<char>, ls: Seq<Seq<char>>, n: nat)
    requires
        n <= ls.len(),
    ensures
        conformant(date_format_findings_of(document, ls, n)) == headings_well_formed(ls, n),
    decreases n,
{
    if n > 0 {
        lemma_date_format_conformance(document, ls, (n - 1) as nat);
        let prev = date_format_findings_of(document, ls, (n - 1) as nat);
        let last = match heading_date(ls[n - 1]) {
            Some(date) => if iso_8601_date(date) {
                Seq::<FindingView>::empty()
            } else {
                seq![
                    Rule::LogDateFormat.spec_finding(
                        document,
                        "Log File date heading must use ISO 8601 date format: "@ + date,
                        Some(n as usize),
                        Some(4),
                    ),
                ]
            },
            None => Seq::<FindingView>::empty(),
        };
        assert(date_format_findings_of(document, ls, n) == prev + last);
        lemma_extend_composes(prev, last, Severity::Error);
        if headings_well_formed(ls, n) {
            assert(headings_well_formed(ls, (n - 1) as nat));
            assert(match heading_date(ls[n - 1]) {
                Some(date) => iso_8601_date(date),
                None => true,
            });
        } else {
            if headings_well_formed(ls, (n - 1) as nat) {
                let i = choose|i: int|
                    0 <= i < n && !match heading_date(#[trigger] ls[i]) {
                        Some(date) => iso_8601_date(date),
                        None => true,
                    };
                assert(i == n - 1);
                assert(last[0].severity == Severity::Error);
            }
        }
    }
}

proof fn lemma_date_order_conformant(
    document: Seq<char>,
    dates: Seq<(Seq<char>, nat)>,
    n: nat,
)
    ensures
        conformant(date_order_findings_of(document, dates, n)),
    decreases n,
{
    if n > 0 {
        lemma_date_order_conformant(document, dates, (n - 1) as nat);
        let all = date_order_findings_of(document, dates, n);
        let prev = date_order_findings_of(document, dates, (n - 1) as nat);
        assert forall|i: int| 0 <= i < all.len() implies (#[trigger] all[i]).severity
            != Severity::Error by {
            if i < prev.len() {
                assert(all[i] == prev[i]);
            }
        }
    }
}

/// A Log File is conformant exactly when it has no closed Frontmatter and every date
/// heading is in ISO 8601 form: dates out of order are quality Findings only.
pub proof fn lemma_log_conformance(document: Seq<char>, contents: Seq<char>)
    ensures
        conformant(log_findings(document, contents)) == (split_frontmatter_of(contents) is None
            && headings_well_formed(lines(contents), lines(contents).len())),
{
    let ls = lines(contents);
    let dates = crate::verification::dated_headings(ls, ls.len());
    let h = if split_frontmatter_of(contents) is Some {
        seq![
            Rule::LogNoFrontmatter.spec_finding(
                document,
                "Log File must not contain frontmatter"@,
                Some(1),
                Some(1),
            ),
        ]
    } else {
        Seq::<FindingView>::empty()
    };
    let f = date_format_findings_of(document, ls, ls.len());
    let o = date_order_findings_of(document, dates, dates.len());
    assert(log_findings(document, contents) == h + f + o);
    lemma_date_format_conformance(document, ls, ls.len());
    lemma_date_order_conformant(document, dates, dates.len());
    lemma_extend_composes(h, f, Severity::Error);
    lemma_extend_composes(h + f, o, Severity::Error);
    if split_frontmatter_of(contents) is Some {
        assert(h[0].severity == Severity::Error);
    }
}

/// Every Finding is a Broken Link Warning about `document`.
pub open spec fn all_broken_link_warnings(findings: Seq<FindingView>, document: Seq<char>) -> bool {
    forall|i: int|
        0 <= i < findings.len() ==> {
            &&& (#[trigger] findings[i]).rule_code == Rule::BrokenLink.spec_code()
            &&& findings[i].severity == Severity::Warning
            &&& findings[i].document == document
        }
}

proof fn lemma_broken_link_warnings_concat(a: Seq<FindingView>, b: Seq<FindingView>, document: Seq<char>)
    requires
        all_broken_link_warnings(a, document),
        all_broken_link_warnings(b, document),
    ensures
        all_broken_link_warnings(a + b, document),
{
    assert forall|i: int| 0 <= i < (a + b).len() implies {
        &&& (#[trigger] (a + b)[i]).rule_code == Rule::BrokenLink.spec_code()
        &&& (a + b)[i].severity == Severity::Warning
        &&& (a + b)[i].document == document
    } by {
        if i < a.len() {
            assert((a + b)[i] == a[i]);
        } else {
            assert((a + b)[i] == b[i - a.len()]);
        }
    }
}

proof fn lemma_line_broken_links(
    document: Seq<char>,
    dir: Seq<Seq<char>>,
    known: Seq<Seq<Seq<char>>>,
    line_number: nat,
    links: Seq<(int, Seq<char>)>,
)
    ensures
        all_broken_link_warnings(
            broken_link_findings_of(document, dir, known, line_number, links),
            document,
        ),
    decreases links.len(),
{
    if links.len() > 0 {
        lemma_line_broken_links(document, dir, known, line_number, links.drop_first());
        let head = broken_link_findings_of(document, dir, known, line_number, links).take(
            if is_broken_link(dir, links[0].1, known) { 1int } else { 0int },
        );
        let rest = broken_link_findings_of(document, dir, known, line_number, links.drop_first());
        assert(broken_link_findings_of(document, dir, known, line_number, links) =~= head + rest);
        lemma_broken_link_warnings_concat(head, rest, document);
    }
}

proof fn lemma_lines_broken_links(
    document: Seq<char>,
    dir: Seq<Seq<char>>,
    known: Seq<Seq<Seq<char>>>,
    ls: Seq<Seq<char>>,
    n: nat,
)
    ensures
        all_broken_link_warnings(lines_link_findings(document, dir, known, ls, n), document),
    decreases n,
{
    if n > 0 && n <= ls.len() {
        lemma_lines_broken_links(document, dir, known, ls, (n - 1) as nat);
        lemma_line_broken_links(document, dir, known, n, line_links(ls[n - 1], 0));
        lemma_broken_link_warnings_concat(
            lines_link_findings(document, dir, known, ls, (n - 1) as nat),
            broken_link_findings_of(document, dir, known, n, line_links(ls[n - 1], 0)),
            document,
        );
    }
}

/// The Broken Link Rule reports Warnings only: every Finding it makes for a Concept
/// Document carries the Broken Link Rule Code and Severity and names the document, so
/// Broken Links never break conformance.
pub proof fn lemma_link_findings_are_warnings(
    document: Seq<char>,
    relative: Seq<char>,
    contents: Seq<char>,
    bundle_paths: Seq<String>,
)
    ensures
        all_broken_link_warnings(link_findings(document, relative, contents, bundle_paths), document),
        all_from_rules(link_findings(document, relative, contents, bundle_paths), document),
        conformant(link_findings(document, relative, contents, bundle_paths)),
{
    let f = link_findings(document, relative, contents, bundle_paths);
    lemma_lines_broken_links(
        document,
        crate::verification::links::document_dir(relative),
        crate::verification::links::bundle_segments(bundle_paths),
        lines(contents),
        lines(contents).len(),
    );
    assert forall|i: int| 0 <= i < f.len() implies from_rule(#[trigger] f[i], document) by {
        assert(f[i].rule_code == Rule::BrokenLink.spec_code());
    }
}

/// A link with a URI scheme (a `:` in its destination), such as an external web link,
/// is never a Broken Link.
pub proof fn lemma_external_links_are_never_broken(
    dir: Seq<Seq<char>>,
    dest: Seq<char>,
    known: Seq<Seq<Seq<char>>>,
)
    requires
        crate::text::contains(dest, seq![':']),
    ensures
        !is_broken_link(dir, dest, known),
{
}

/// Bundle Verification composes the Verification of each document: the Findings of
/// each document come after those of the documents before it, so the bundle passes a
/// threshold exactly when every document's Findings do, and, Broken Links being
/// Warnings, the bundle is conformant exactly when every document's Document
/// Verification is.
pub proof fn lemma_bundle_composes(
    documents: Seq<(OkfDocument, String)>,
    bundle_paths: Seq<String>,
    n: nat,
    threshold: Severity,
)
    requires
        n <= documents.len(),
    ensures
        conformant(bundle_findings(documents, bundle_paths, n)) <==> forall|i: int|
            0 <= i < n ==> conformant(
                #[trigger] document_findings(documents[i].0@.1, documents[i].0@.0, documents[i].1@),
            ),
        passes_threshold(bundle_findings(documents, bundle_paths, n), threshold) <==> forall|i: int|
            0 <= i < n ==> passes_threshold(
                #[trigger] bundle_document_findings(documents[i].0, documents[i].1@, bundle_paths),
                threshold,
            ),
    decreases n,
{
    if n > 0 {
        lemma_bundle_composes(documents, bundle_paths, (n - 1) as nat, threshold);
        let d = documents[n - 1].0;
        let contents = documents[n - 1].1@;
        let own = document_findings(d@.1, d@.0, contents);
        let links = if d@.1 == OkfDocumentKind::ConceptDocument {
            link_findings(d@.0, d@.2, contents, bundle_paths)
        } else {
            Seq::<FindingView>::empty()
        };
        lemma_link_findings_are_warnings(d@.0, d@.2, contents, bundle_paths);
        assert(bundle_document_findings(d, contents, bundle_paths) == own + links);
        lemma_extend_composes(own, links, threshold);
        let prev = bundle_findings(documents, bundle_paths, (n - 1) as nat);
        lemma_extend_composes(prev, own + links, threshold);
    }
}

/// The Rule Set and Suppressions only remove Findings: whatever is conformant, or
/// passes a threshold, stays so after filtering.
pub proof fn lemma_filter_only_removes(
    findings: Seq<FindingView>,
    options: (crate::check::RuleSet, Seq<Seq<char>>, Seq<Seq<char>>),
    n: nat,
    threshold: Severity,
)
    requires
        n <= findings.len(),
    ensures
        conformant(findings.take(n as int)) ==> conformant(kept_findings(findings, options, n)),
        passes_threshold(findings.take(n as int), threshold) ==> passes_threshold(
            kept_findings(findings, options, n),
            threshold,
        ),
    decreases n,
{
    if n > 0 {
        let prev = findings.take(n - 1);
        assert(findings.take(n as int) == prev.push(findings[n - 1]));
        assert forall|i: int| 0 <= i < prev.len() implies #[trigger] prev[i] == findings.take(
            n as int,
        )[i] by {}
        lemma_filter_only_removes(findings, options, (n - 1) as nat, threshold);
        let k = kept_findings(findings, options, (n - 1) as nat);
        let last = if kept(findings[n - 1], options) {
            seq![findings[n - 1]]
        } else {
            Seq::<FindingView>::empty()
        };
        assert(findings.take(n as int)[n - 1] == findings[n - 1]);
        lemma_extend_composes(k, last, threshold);
    }
}

/// With the default Rule Set and no Suppressions, filtering keeps every Finding.
pub proof fn lemma_filter_default_keeps_all(findings: Seq<FindingView>, n: nat)
    requires
        n <= findings.len(),
    ensures
        kept_findings(
            findings,
            (crate::check::RuleSet::Default, Seq::<Seq<char>>::empty(), Seq::<Seq<char>>::empty()),
            n,
        ) == findings.take(n as int),
    decreases n,
{
    if n > 0 {
        lemma_filter_default_keeps_all(findings, (n - 1) as nat);
        assert(findings.take(n as int) =~= findings.take(n - 1).push(findings[n - 1]));
    }
}

/// The Index and Log Rules read Frontmatter as the document text does: both find it
/// in the same documents with the same raw YAML, and the Index Rules start checking
/// entries on the closing delimiter line, one before the first Body line.
pub proof fn lemma_split_and_closed_frontmatter_agree(contents: Seq<char>)
    ensures
        split_frontmatter_of(contents) is Some <==> closed_frontmatter_of(contents) is Some,
        closed_frontmatter_of(contents) matches Some((raw, body)) ==> split_frontmatter_of(
            contents,
        ) == Some((raw, (body - 1) as nat)),
{
    lemma_split_frontmatter_shape(contents);
}

/// Closed Frontmatter ends on its own line: the line just before the first Body line
/// is the closing `---` delimiter, and the lines from there on are the lines of the
/// text that follows the raw YAML and its line feed.
pub proof fn lemma_body_follows_closing_delimiter(contents: Seq<char>)
    ensures
        closed_frontmatter_of(contents) matches Some((raw, body)) ==> {
            &&& 1 <= body <= lines(contents).len()
            &&& starts_with(lines(contents)[body - 1], seq!['-', '-', '-'])
            &&& lines(contents).skip(body - 1) == lines(contents.skip(raw.len() + 5int))
        },
{
    if let Some((raw, body)) = closed_frontmatter_of(contents) {
        let e = find_from(contents, crate::document::closing_marker(), 4)->0;
        lemma_find_from(contents, crate::document::closing_marker(), 4);
        assert(raw.len() + 4 == e);
        let closing = contents.subrange(e, e + 4);
        assert(closing == crate::document::closing_marker());
        assert(contents[e] == closing[0]);
        assert(contents[e + 1] == closing[1]);
        assert(contents[e + 2] == closing[2]);
        assert(contents[e + 3] == closing[3]);
        lemma_lines_skip(contents, e + 1);
        assert(contents.take(e + 1).drop_last() =~= contents.take(e));
        assert(count_newlines(contents.take(e + 1)) == body - 1);
        let u = contents.skip(e + 1);
        assert(u[0] == contents[e + 1] && u[1] == contents[e + 2] && u[2] == contents[e + 3]);
        lemma_first_line_starts_with_delimiter(u);
        assert(lines(contents).skip(body - 1)[0] == lines(contents)[body - 1]);
    }
}

/// Text that does not open Frontmatter has no closed Frontmatter.
pub proof fn lemma_closed_frontmatter_needs_opening(contents: Seq<char>)
    ensures
        !has_opening(contents) ==> closed_frontmatter_of(contents) is None,
{
}

/// The suppressed Rule Codes never survive filtering: no kept Finding carries any of
/// the Rule Codes listed as Suppressions, wherever in the list it stands.
pub proof fn lemma_suppressed_codes_are_never_kept(
    findings: Seq<FindingView>,
    options: (crate::check::RuleSet, Seq<Seq<char>>, Seq<Seq<char>>),
    n: nat,
)
    ensures
        forall|i: int, j: int|
            0 <= i < kept_findings(findings, options, n).len() && 0 <= j < options.1.len()
                ==> (#[trigger] kept_findings(findings, options, n)[i]).rule_code
                != #[trigger] options.1[j],
    decreases n,
{
    if n > 0 && n <= findings.len() {
        lemma_suppressed_codes_are_never_kept(findings, options, (n - 1) as nat);
        let prev = kept_findings(findings, options, (n - 1) as nat);
        let k = kept_findings(findings, options, n);
        assert forall|i: int, j: int|
            0 <= i < k.len() && 0 <= j < options.1.len() implies (#[trigger] k[i]).rule_code
            != #[trigger] options.1[j] by {
            if i < prev.len() {
                assert(k[i] == prev[i]);
            } else {
                assert(k[i] == findings[n - 1]);
                assert(kept(findings[n - 1], options));
                if findings[n - 1].rule_code == options.1[j] {
                    assert(options.1.contains(findings[n - 1].rule_code));
                }
            }
        }
    }
}

/// Filtering keeps every Finding that no Suppression names and that the Rule Set
/// admits (any Finding for the default Rule Set, errors for the Conformance Rule Set).
pub proof fn lemma_unsuppressed_findings_are_kept(
    findings: Seq<FindingView>,
    options: (crate::check::RuleSet, Seq<Seq<char>>, Seq<Seq<char>>),
    n: nat,
)
    requires
        n <= findings.len(),
    ensures
        forall|i: int|
            0 <= i < n && (forall|j: int|
                0 <= j < options.1.len() ==> options.1[j] != (#[trigger] findings[i]).rule_code)
                && (options.0 == crate::check::RuleSet::Conformance ==> findings[i].severity
                == Severity::Error) ==> kept_findings(findings, options, n).contains(findings[i]),
    decreases n,
{
    if n > 0 {
        lemma_unsuppressed_findings_are_kept(findings, options, (n - 1) as nat);
        let prev = kept_findings(findings, options, (n - 1) as nat);
        let k = kept_findings(findings, options, n);
        assert forall|i: int|
            0 <= i < n && (forall|j: int|
                0 <= j < options.1.len() ==> options.1[j] != (#[trigger] findings[i]).rule_code)
                && (options.0 == crate::check::RuleSet::Conformance ==> findings[i].severity
                == Severity::Error) implies k.contains(findings[i]) by {
            if i < n - 1 {
                let w = choose|w: int| 0 <= w < prev.len() && prev[w] == findings[i];
                assert(k[w] == prev[w]);
            } else {
                if options.1.contains(findings[i].rule_code) {
                    let j = choose|j: int| 0 <= j < options.1.len() && options.1[j] == findings[i].rule_code;
                    assert(options.1[j] != findings[i].rule_code);
                }
                assert(kept(findings[i], options));
                assert(k[prev.len() as int] == findings[i]);
            }
        }
    }
}

/// An Index File below the Bundle Root may not have Frontmatter: when it has closed
/// Frontmatter, its first Finding is the Index File Frontmatter error, and it is not
/// conformant, whatever its Frontmatter holds.
pub proof fn lemma_nested_index_frontmatter_is_an_error(document: Seq<char>, contents: Seq<char>)
    requires
        split_frontmatter_of(contents) is Some,
    ensures
        document_findings(OkfDocumentKind::IndexFile, document, contents).len() >= 1,
        document_findings(OkfDocumentKind::IndexFile, document, contents)[0].rule_code
            == "OKF200"@,
        document_findings(OkfDocumentKind::IndexFile, document, contents)[0].severity
            == Severity::Error,
        !conformant(document_findings(OkfDocumentKind::IndexFile, document, contents)),
{
    reveal(document_findings);
    let f = document_findings(OkfDocumentKind::IndexFile, document, contents);
    assert(f[0].severity == Severity::Error);
}

/// The Root Index File and a nested Index File are verified alike when there is no
/// Frontmatter: only Frontmatter tells them apart.
pub proof fn lemma_index_kinds_agree_without_frontmatter(document: Seq<char>, contents: Seq<char>)
    requires
        split_frontmatter_of(contents) is None,
    ensures
        document_findings(OkfDocumentKind::IndexFile, document, contents) == document_findings(
            OkfDocumentKind::RootIndexFile,
            document,
            contents,
        ),
{
    reveal(document_findings);
}

/// `](` stands somewhere in the text: the text holds a markdown link.
pub open spec fn holds_link_marker(s: Seq<char>) -> bool {
    exists|i: int| 0 <= i && i + 1 < s.len() && #[trigger] s[i] == ']' && s[i + 1] == '('
}

proof fn lemma_leading_ws_are_whitespace(s: Seq<char>)
    ensures
        crate::text::leading_ws(s) <= s.len(),
        forall|j: int| 0 <= j < crate::text::leading_ws(s) ==> crate::text::is_whitespace(#[trigger] s[j]),
    decreases s.len(),
{
    if s.len() > 0 && crate::text::is_whitespace(s[0]) {
        let t = s.drop_first();
        lemma_leading_ws_are_whitespace(t);
        assert forall|j: int| 0 <= j < crate::text::leading_ws(s) implies crate::text::is_whitespace(
            #[trigger] s[j],
        ) by {
            if j > 0 {
                assert(s[j] == t[j - 1]);
            }
        }
    }
}

/// An Index File entry gets the missing-link suggestion exactly when no `](` stands in
/// it: a `(` alone, as in `- Customers (table)`, is no markdown link.
pub proof fn lemma_entry_is_flagged_iff_no_link(document: Seq<char>, line: Seq<char>, n: nat)
    requires
        is_entry_line(line),
    ensures
        entry_finding_of(document, line, n).len() == 1 <==> !holds_link_marker(line),
        entry_finding_of(document, line, n).len() == 1 ==> entry_finding_of(document, line, n)[0].rule_code
            == "OKF204"@,
        entry_finding_of(document, line, n).len() == 0 <==> holds_link_marker(line),
{
    let k = crate::text::leading_ws(line);
    lemma_leading_ws_are_whitespace(line);
    let t = crate::text::trim_start(line);
    let m = seq![']', '('];
    if crate::text::contains(t, m) {
        let i = choose|i: int| crate::text::occurs_at(t, m, i);
        assert(t.subrange(i, i + 2)[0] == t[i]);
        assert(t.subrange(i, i + 2)[1] == t[i + 1]);
        assert(line[k + i] == t[i]);
        assert(line[k + i + 1] == t[i + 1]);
        assert(holds_link_marker(line));
    }
    if holds_link_marker(line) {
        let i = choose|i: int| 0 <= i && i + 1 < line.len() && #[trigger] line[i] == ']' && line[i + 1] == '(';
        if i < k {
            assert(crate::text::is_whitespace(line[i]));
            assert(false);
        }
        assert(t[i - k] == line[i]);
        assert(t[i - k + 1] == line[i + 1]);
        assert(t.subrange(i - k, i - k + 2) =~= m);
        assert(crate::text::occurs_at(t, m, i - k));
    }
}

/// A `#fragment` does not change whether a link is broken: a destination `p#f` (with
/// no `#` in `p` and no `:` in `f`) is a Broken Link exactly when `p` is.
pub proof fn lemma_fragment_does_not_change_brokenness(
    dir: Seq<Seq<char>>,
    p: Seq<char>,
    f: Seq<char>,
    known: Seq<Seq<Seq<char>>>,
)
    requires
        !crate::text::contains(p, seq!['#']),
        !crate::text::contains(f, seq![':']),
    ensures
        is_broken_link(dir, p + seq!['#'] + f, known) == is_broken_link(dir, p, known),
{
    let d = p + seq!['#'] + f;
    let hash = seq!['#'];
    let colon = seq![':'];
    // the path part of `d` is `p`
    lemma_find_from(d, hash, 0);
    assert(d.subrange(p.len() as int, p.len() + 1int) =~= hash);
    assert(crate::text::occurs_at(d, hash, p.len() as int));
    match find_from(d, hash, 0) {
        Some(h) => {
            if h < p.len() {
                assert(d.subrange(h, h + 1)[0] == d[h]);
                assert(p.subrange(h, h + 1) =~= hash);
                assert(crate::text::occurs_at(p, hash, h));
            }
        },
        None => {},
    }
    assert(link_path(d) =~= p);
    lemma_find_from(p, hash, 0);
    assert(link_path(p) == p);
    // `d` holds a `:` exactly when `p` does
    if crate::text::contains(d, colon) {
        let i = choose|i: int| crate::text::occurs_at(d, colon, i);
        assert(d.subrange(i, i + 1)[0] == d[i]);
        if i < p.len() {
            assert(p.subrange(i, i + 1) =~= colon);
            assert(crate::text::occurs_at(p, colon, i));
        } else if i == p.len() {
            assert(d[i] == '#');
        } else {
            assert(d[i] == f[i - p.len() - 1]);
            assert(f.subrange(i - p.len() - 1, i - p.len()) =~= colon);
            assert(crate::text::occurs_at(f, colon, i - p.len() - 1));
        }
    }
    if crate::text::contains(p, colon) {
        let i = choose|i: int| crate::text::occurs_at(p, colon, i);
        assert(d.subrange(i, i + 1) =~= p.subrange(i, i + 1));
        assert(crate::text::occurs_at(d, colon, i));
    }
    assert(is_concept_link(d) == is_concept_link(p));
    assert(link_target(dir, d) == link_target(dir, p));
}

/// `a` and `b` agree before index `k`, and differ at `k` or end there: `lex_less`
/// decides by that position alone, as `str` ordering does.
pub proof fn lemma_lex_less_at_first_difference(a: Seq<char>, b: Seq<char>, k: int)
    requires
        0 <= k <= a.len(),
        k <= b.len(),
        forall|j: int| 0 <= j < k ==> #[trigger] a[j] == b[j],
        k == a.len() || k == b.len() || a[k] != b[k],
    ensures
        lex_less(a, b) == if k == a.len() {
            k < b.len()
        } else if k == b.len() {
            false
        } else {
            (a[k] as u32) < (b[k] as u32)
        },
    decreases k,
{
    if k > 0 {
        let a1 = a.drop_first();
        let b1 = b.drop_first();
        assert(a[0] == b[0]);
        assert forall|j: int| 0 <= j < k - 1 implies #[trigger] a1[j] == b1[j] by {
            assert(a1[j] == a[j + 1]);
            assert(b1[j] == b[j + 1]);
        }
        if k < a.len() && k < b.len() {
            assert(a1[k - 1] == a[k]);
            assert(b1[k - 1] == b[k]);
        }
        lemma_lex_less_at_first_difference(a1, b1, k - 1);
    }
}

/// The day an ISO 8601 date names, as the number `YYYYMMDD`.
pub open spec fn date_number(d: Seq<char>) -> int {
    digit_value(d[0]) * 10000000 + digit_value(d[1]) * 1000000 + digit_value(d[2]) * 100000
        + digit_value(d[3]) * 10000 + digit_value(d[5]) * 1000 + digit_value(d[6]) * 100
        + digit_value(d[8]) * 10 + digit_value(d[9])
}

/// On ISO 8601 dates, the order in which Log File headings are checked is the
/// calendar order: one date sorts before another exactly when it is an earlier day,
/// whichever of year, month or day differs.
pub proof fn lemma_iso_date_order_is_calendar_order(a: Seq<char>, b: Seq<char>)
    requires
        crate::verification::iso_8601_date(a),
        crate::verification::iso_8601_date(b),
    ensures
        lex_less(a, b) <==> date_number(a) < date_number(b),
{
    assert(crate::verification::is_digit(a[0]) && crate::verification::is_digit(b[0]));
    assert(crate::verification::is_digit(a[1]) && crate::verification::is_digit(b[1]));
    assert(crate::verification::is_digit(a[2]) && crate::verification::is_digit(b[2]));
    assert(crate::verification::is_digit(a[3]) && crate::verification::is_digit(b[3]));
    assert(a[4] == '-' && b[4] == '-');
    assert(crate::verification::is_digit(a[5]) && crate::verification::is_digit(b[5]));
    assert(crate::verification::is_digit(a[6]) && crate::verification::is_digit(b[6]));
    assert(a[7] == '-' && b[7] == '-');
    assert(crate::verification::is_digit(a[8]) && crate::verification::is_digit(b[8]));
    assert(crate::verification::is_digit(a[9]) && crate::verification::is_digit(b[9]));
    if a[0] != b[0] {
        lemma_lex_less_at_first_difference(a, b, 0);
    } else if a[1] != b[1] {
        lemma_lex_less_at_first_difference(a, b, 1);
    } else if a[2] != b[2] {
        lemma_lex_less_at_first_difference(a, b, 2);
    } else if a[3] != b[3] {
        lemma_lex_less_at_first_difference(a, b, 3);
    } else if a[5] != b[5] {
        lemma_lex_less_at_first_difference(a, b, 5);
    } else if a[6] != b[6] {
        lemma_lex_less_at_first_difference(a, b, 6);
    } else if a[8] != b[8] {
        lemma_lex_less_at_first_difference(a, b, 8);
    } else if a[9] != b[9] {
        lemma_lex_less_at_first_difference(a, b, 9);
    } else {
        lemma_lex_less_at_first_difference(a, b, 10);
    }
}

/// The dated heading at index `i` has a next one that is a later day.
pub open spec fn older_before_next(dates: Seq<(Seq<char>, nat)>, i: int) -> bool {
    0 <= i && i + 1 < dates.len() && date_number(dates[i].0) < date_number(dates[i + 1].0)
}

/// The Finding at index `k` is the dates-out-of-order warning for line `line`.
pub open spec fn order_warning_at(findings: Seq<FindingView>, k: int, line: nat) -> bool {
    0 <= k < findings.len() && findings[k].rule_code == "OKF302"@ && findings[k].line == Some(
        line as usize,
    )
}

proof fn lemma_dated_headings_are_iso(ls: Seq<Seq<char>>, n: nat)
    ensures
        forall|i: int|
            0 <= i < dated_headings(ls, n).len() ==> crate::verification::iso_8601_date(
                #[trigger] dated_headings(ls, n)[i].0,
            ),
    decreases n,
{
    if n > 0 {
        lemma_dated_headings_are_iso(ls, (n - 1) as nat);
        let prev = dated_headings(ls, (n - 1) as nat);
        let all = dated_headings(ls, n);
        assert forall|i: int| 0 <= i < all.len() implies crate::verification::iso_8601_date(
            #[trigger] all[i].0,
        ) by {
            if i < prev.len() {
                assert(all[i] == prev[i]);
            }
        }
    }
}

proof fn lemma_date_format_codes(document: Seq<char>, ls: Seq<Seq<char>>, n: nat)
    ensures
        forall|k: int|
            0 <= k < date_format_findings_of(document, ls, n).len() ==> (
            #[trigger] date_format_findings_of(document, ls, n)[k]).rule_code == "OKF301"@,
    decreases n,
{
    if n > 0 {
        lemma_date_format_codes(document, ls, (n - 1) as nat);
        let prev = date_format_findings_of(document, ls, (n - 1) as nat);
        let all = date_format_findings_of(document, ls, n);
        assert forall|k: int| 0 <= k < all.len() implies (#[trigger] all[k]).rule_code
            == "OKF301"@ by {
            if k < prev.len() {
                assert(all[k] == prev[k]);
            }
        }
    }
}

#[verifier::spinoff_prover]
#[verifier::rlimit(40)]
proof fn lemma_date_order_warnings(document: Seq<char>, dates: Seq<(Seq<char>, nat)>, n: nat)
    requires
        n <= dates.len(),
        forall|i: int| 0 <= i < dates.len() ==> crate::verification::iso_8601_date(#[trigger] dates[i].0),
    ensures
        forall|k: int|
            0 <= k < date_order_findings_of(document, dates, n).len() ==> {
                &&& (#[trigger] date_order_findings_of(document, dates, n)[k]).rule_code == "OKF302"@
                &&& exists|i: int|
                    0 <= i < n && #[trigger] older_before_next(dates, i)
                        && date_order_findings_of(document, dates, n)[k].line == Some(
                        dates[i].1 as usize,
                    )
            },
        forall|i: int|
            0 <= i < n && #[trigger] older_before_next(dates, i) ==> exists|k: int|
                #[trigger] order_warning_at(date_order_findings_of(document, dates, n), k, dates[i].1),
    decreases n,
{
    if n > 0 {
        lemma_date_order_warnings(document, dates, (n - 1) as nat);
        let prev = date_order_findings_of(document, dates, (n - 1) as nat);
        let all = date_order_findings_of(document, dates, n);
        let j = n - 1;
        if n < dates.len() {
            lemma_iso_date_order_is_calendar_order(dates[j].0, dates[j + 1].0);
        }
        assert(older_before_next(dates, j) == (n < dates.len() && lex_less(dates[j].0, dates[n as int].0)));
        assert forall|k: int| 0 <= k < all.len() implies {
            &&& (#[trigger] all[k]).rule_code == "OKF302"@
            &&& exists|i: int|
                0 <= i < n && #[trigger] older_before_next(dates, i) && all[k].line == Some(
                    dates[i].1 as usize,
                )
        } by {
            if k < prev.len() {
                assert(all[k] == prev[k]);
                let i = choose|i: int|
                    0 <= i < n - 1 && #[trigger] older_before_next(dates, i) && prev[k].line == Some(
                        dates[i].1 as usize,
                    );
                assert(older_before_next(dates, i));
            } else {
                assert(older_before_next(dates, j));
            }
        }
        assert forall|i: int| 0 <= i < n && #[trigger] older_before_next(dates, i) implies exists|k: int|
            #[trigger] order_warning_at(all, k, dates[i].1) by {
            if i < n - 1 {
                let k = choose|k: int| #[trigger] order_warning_at(prev, k, dates[i].1);
                assert(all[k] == prev[k]);
                assert(order_warning_at(all, k, dates[i].1));
            } else {
                assert(order_warning_at(all, prev.len() as int, dates[i].1));
            }
        }
    }
}

proof fn lemma_log_codes_differ()
    ensures
        "OKF201"@ != "OKF302"@,
        "OKF301"@ != "OKF302"@,
{
    reveal_strlit("OKF201");
    reveal_strlit("OKF301");
    reveal_strlit("OKF302");
    assert("OKF201"@[3] != "OKF302"@[3]);
    assert("OKF301"@[5] != "OKF302"@[5]);
}

#[verifier::spinoff_prover]
#[verifier::rlimit(40)]
proof fn lemma_order_warnings_after(
    pre: Seq<FindingView>,
    o: Seq<FindingView>,
    dates: Seq<(Seq<char>, nat)>,
)
    requires
        forall|k: int| 0 <= k < pre.len() ==> (#[trigger] pre[k]).rule_code != "OKF302"@,
        forall|k: int|
            0 <= k < o.len() ==> {
                &&& (#[trigger] o[k]).rule_code == "OKF302"@
                &&& exists|i: int|
                    0 <= i < dates.len() && #[trigger] older_before_next(dates, i) && o[k].line
                        == Some(dates[i].1 as usize)
            },
        forall|i: int|
            0 <= i < dates.len() && #[trigger] older_before_next(dates, i) ==> exists|k: int|
                #[trigger] order_warning_at(o, k, dates[i].1),
    ensures
        forall|i: int|
            #[trigger] older_before_next(dates, i) ==> exists|k: int|
                #[trigger] order_warning_at(pre + o, k, dates[i].1),
        forall|k: int|
            0 <= k < (pre + o).len() && (#[trigger] (pre + o)[k]).rule_code == "OKF302"@
                ==> exists|i: int|
                #[trigger] older_before_next(dates, i) && (pre + o)[k].line == Some(
                    dates[i].1 as usize,
                ),
{
    let f = pre + o;
    assert forall|i: int| #[trigger] older_before_next(dates, i) implies exists|k: int|
        #[trigger] order_warning_at(f, k, dates[i].1) by {
        let k = choose|k: int| #[trigger] order_warning_at(o, k, dates[i].1);
        assert(f[pre.len() + k] == o[k]);
        assert(order_warning_at(f, pre.len() + k, dates[i].1));
    }
    assert forall|k: int| 0 <= k < f.len() && (#[trigger] f[k]).rule_code == "OKF302"@ implies exists|i: int|
        #[trigger] older_before_next(dates, i) && f[k].line == Some(dates[i].1 as usize) by {
        if k < pre.len() {
            assert(f[k] == pre[k]);
        } else {
            assert(f[k] == o[k - pre.len()]);
            let i = choose|i: int|
                0 <= i < dates.len() && #[trigger] older_before_next(dates, i) && o[k - pre.len()].line
                    == Some(dates[i].1 as usize);
            assert(older_before_next(dates, i));
        }
    }
}

/// Log File dates go newest first, by the calendar: for the well-formed dated headings
/// of a Log File, the heading just above a later day gets the dates-out-of-order
/// warning on its line, and every such warning stands on a heading whose next dated
/// heading is a later day.
#[verifier::spinoff_prover]
#[verifier::rlimit(40)]
pub proof fn lemma_log_order_warnings_follow_the_calendar(document: Seq<char>, contents: Seq<char>)
    ensures
        forall|i: int|
            #[trigger] older_before_next(
                dated_headings(lines(contents), lines(contents).len()),
                i,
            ) ==> exists|k: int|
                #[trigger] order_warning_at(
                    log_findings(document, contents),
                    k,
                    dated_headings(lines(contents), lines(contents).len())[i].1,
                ),
        forall|k: int|
            0 <= k < log_findings(document, contents).len() && (#[trigger] log_findings(
                document,
                contents,
            )[k]).rule_code == "OKF302"@ ==> exists|i: int|
                #[trigger] older_before_next(
                    dated_headings(lines(contents), lines(contents).len()),
                    i,
                ) && log_findings(document, contents)[k].line == Some(
                    dated_headings(lines(contents), lines(contents).len())[i].1 as usize,
                ),
{
    let ls = lines(contents);
    let dates = dated_headings(ls, ls.len());
    let h = if split_frontmatter_of(contents) is Some {
        seq![
            Rule::LogNoFrontmatter.spec_finding(
                document,
                "Log File must not contain frontmatter"@,
                Some(1),
                Some(1),
            ),
        ]
    } else {
        Seq::<FindingView>::empty()
    };
    let fm = date_format_findings_of(document, ls, ls.len());
    let o = date_order_findings_of(document, dates, dates.len());
    assert(log_findings(document, contents) == h + fm + o);
    lemma_log_codes_differ();
    lemma_date_format_codes(document, ls, ls.len());
    let pre = h + fm;
    assert forall|k: int| 0 <= k < pre.len() implies (#[trigger] pre[k]).rule_code != "OKF302"@ by {
        if k < h.len() {
            assert(pre[k] == h[k]);
        } else {
            assert(pre[k] == fm[k - h.len()]);
        }
    }
    lemma_dated_headings_are_iso(ls, ls.len());
    lemma_date_order_warnings(document, dates, dates.len());
    lemma_order_warnings_after(pre, o, dates);
}

/// Document Verification by kind: each kind of OKF Document is conformant under its
/// own Rules. The Root Index File may hold Frontmatter that parses, a nested Index File
/// may hold none, a Log File none and well-formed date headings, and a Concept Document
/// needs Frontmatter that opens, closes, parses and names a Concept Type.
pub proof fn lemma_document_conformance_by_kind(document: Seq<char>, contents: Seq<char>)
    ensures
        conformant(document_findings(OkfDocumentKind::RootIndexFile, document, contents))
            == match split_frontmatter_of(contents) {
            None => true,
            Some((raw, _)) => yaml::yaml_parse(raw) is Ok,
        },
        conformant(document_findings(OkfDocumentKind::IndexFile, document, contents))
            == split_frontmatter_of(contents) is None,
        conformant(document_findings(OkfDocumentKind::LogFile, document, contents)) == (
        split_frontmatter_of(contents) is None && headings_well_formed(
            lines(contents),
            lines(contents).len(),
        )),
        conformant(document_findings(OkfDocumentKind::ConceptDocument, document, contents))
            == concept_frontmatter_conforms(contents),
{
    reveal(document_findings);
    lemma_index_conformance(document, contents, true);
    lemma_index_conformance(document, contents, false);
    lemma_log_conformance(document, contents);
    lemma_concept_conformance(document, contents);
}

/// Filtering invents nothing: every kept Finding is one of the Findings filtered, and
/// with the Conformance Rule Set every kept Finding is an error.
pub proof fn lemma_kept_findings_come_from_the_report(
    findings: Seq<FindingView>,
    options: (crate::check::RuleSet, Seq<Seq<char>>, Seq<Seq<char>>),
    n: nat,
)
    requires
        n <= findings.len(),
    ensures
        forall|i: int|
            0 <= i < kept_findings(findings, options, n).len() ==> {
                &&& findings.take(n as int).contains(#[trigger] kept_findings(findings, options, n)[i])
                &&& options.0 == crate::check::RuleSet::Conformance ==> kept_findings(
                    findings,
                    options,
                    n,
                )[i].severity == Severity::Error
            },
    decreases n,
{
    if n > 0 {
        lemma_kept_findings_come_from_the_report(findings, options, (n - 1) as nat);
        let prev = kept_findings(findings, options, (n - 1) as nat);
        let k = kept_findings(findings, options, n);
        assert forall|i: int| 0 <= i < k.len() implies {
            &&& findings.take(n as int).contains(#[trigger] k[i])
            &&& options.0 == crate::check::RuleSet::Conformance ==> k[i].severity == Severity::Error
        } by {
            if i < prev.len() {
                assert(k[i] == prev[i]);
                let w = choose|w: int| 0 <= w < n - 1 && #[trigger] findings.take(n - 1)[w] == prev[i];
                assert(findings.take(n as int)[w] == findings.take(n - 1)[w]);
            } else {
                assert(k[i] == findings[n - 1]);
                assert(findings.take(n as int)[n - 1] == findings[n - 1]);
            }
        }
    }
}

/// Every segment is a name: neither empty nor `.` nor `..`.
pub open spec fn plain_segments(segs: Seq<Seq<char>>) -> bool {
    forall|i: int|
        0 <= i < segs.len() ==> (#[trigger] segs[i]).len() > 0 && segs[i] != seq!['.'] && segs[i]
            != seq!['.', '.']
}

proof fn lemma_normalize_plain(base: Seq<Seq<char>>, segs: Seq<Seq<char>>)
    requires
        plain_segments(segs),
    ensures
        normalize_segments(base, segs) == Some(base + segs),
    decreases segs.len(),
{
    if segs.len() > 0 {
        let rest = segs.drop_first();
        assert(plain_segments(rest)) by {
            assert forall|i: int| 0 <= i < rest.len() implies (#[trigger] rest[i]).len() > 0
                && rest[i] != seq!['.'] && rest[i] != seq!['.', '.'] by {
                assert(rest[i] == segs[i + 1]);
            }
        }
        assert(segs[0].len() > 0 && segs[0] != seq!['.'] && segs[0] != seq!['.', '.']);
        lemma_normalize_plain(base.push(segs[0]), rest);
        assert(base.push(segs[0]) + rest =~= base + segs);
    }
}

/// A link to a path made of names resolves from the linking document's directory; the
/// same path behind a `/` resolves from the Bundle Root. So such a link is broken
/// exactly when no document of the bundle has that path.
pub proof fn lemma_plain_links_resolve(dir: Seq<Seq<char>>, p: Seq<char>)
    requires
        plain_segments(path_segments(p)),
        !crate::text::contains(p, seq!['#']),
    ensures
        link_target(dir, p) == Some(dir + path_segments(p)),
        link_target(dir, seq!['/'] + p) == Some(path_segments(p)),
{
    let hash = seq!['#'];
    let slash = seq!['/'];
    let q = slash + p;
    crate::verification::links::lemma_seg_end_bound(p);
    // a plain first segment is not empty, so `p` does not start with `/`
    assert(path_segments(p)[0].len() > 0);
    if p.len() > 0 && p[0] == '/' {
        assert(seg_end(p) == 0);
        assert(path_segments(p)[0] =~= Seq::<char>::empty());
    }
    if p.len() == 0 {
        assert(path_segments(p)[0] =~= p);
    }
    assert(!crate::text::starts_with(p, slash)) by {
        if crate::text::starts_with(p, slash) {
            assert(p.take(1)[0] == p[0]);
        }
    }
    lemma_find_from(p, hash, 0);
    assert(link_path(p) == p);
    lemma_normalize_plain(dir, path_segments(p));
    // behind a `/`
    lemma_find_from(q, hash, 0);
    match find_from(q, hash, 0) {
        Some(h) => {
            assert(q.subrange(h, h + 1)[0] == q[h]);
            assert(h >= 1);
            assert(q[h] == p[h - 1]);
            assert(p.subrange(h - 1, h) =~= hash);
            assert(crate::text::occurs_at(p, hash, h - 1));
        },
        None => {},
    }
    assert(link_path(q) == q);
    assert(q.take(1) =~= slash);
    assert(crate::text::starts_with(q, slash));
    assert(q[0] == '/');
    assert(seg_end(q) == 0);
    assert(q.skip(1) =~= p);
    assert(q.take(0) =~= Seq::<char>::empty());
    assert(path_segments(q) == seq![q.take(0)] + path_segments(q.skip(1)));
    assert(path_segments(q) =~= seq![Seq::<char>::empty()] + path_segments(p));
    lemma_normalize_plain(Seq::<Seq<char>>::empty(), path_segments(p));
    assert(Seq::<Seq<char>>::empty() + path_segments(p) =~= path_segments(p));
    assert((seq![Seq::<char>::empty()] + path_segments(p)).drop_first() =~= path_segments(p));
}

} // verus!
