//! Document Verification of Index Files: Frontmatter only in the Root Index File,
//! a known OKF version, and entries that link.

use vstd::prelude::*;

use super::rules::Rule;
use super::{
    column_of, line_of, parse_error_message, push_finding, report_of, single_finding,
    split_frontmatter, split_frontmatter_of, views, Finding, FindingView, VerificationReport,
    KNOWN_OKF_VERSION,
};
use crate::text::{
    chars_of, contains, contains_in, lines, lines_of, starts_with, starts_with_in, str_eq,
    trim_bounds, trim_start,
};
use crate::yaml;

verus! {

/// An Index File entry line: a `- ` or `* ` item after any leading whitespace.
pub open spec fn is_entry_line(line: Seq<char>) -> bool {
    let t = trim_start(line);
    starts_with(t, seq!['-', ' ']) || starts_with(t, seq!['*', ' '])
}

/// The suggestion for an Index File entry line that holds no markdown link.
pub open spec fn entry_finding_of(document: Seq<char>, line: Seq<char>, line_number: nat) -> Seq<
    FindingView,
> {
    if is_entry_line(line) && !contains(trim_start(line), seq![']', '(']) {
        seq![
            Rule::IndexEntryLink.spec_finding(
                document,
                "Index File entry is missing a markdown link"@,
                Some(line_number as usize),
                Some(1),
            ),
        ]
    } else {
        seq![]
    }
}

/// Entry Findings of the lines with index in `from..upto`, each numbered from one.
pub open spec fn entry_findings_of(
    document: Seq<char>,
    ls: Seq<Seq<char>>,
    from: nat,
    upto: nat,
) -> Seq<FindingView>
    decreases upto,
{
    if upto <= from {
        seq![]
    } else {
        entry_findings_of(document, ls, from, (upto - 1) as nat) + entry_finding_of(
            document,
            ls[upto - 1],
            upto,
        )
    }
}

/// What the Root Index File declares as `okf_version`: nothing, a string, or a value
/// that is not a string.
pub open spec fn declared_version(mapping: serde_yaml::Mapping) -> Option<Option<Seq<char>>> {
    match yaml::yaml_lookup(mapping, "okf_version"@) {
        None => None,
        Some(value) => Some(yaml::yaml_str(value)),
    }
}

/// Warnings for a declared OKF version: unknown versions, and values that are not
/// strings.
pub open spec fn version_findings_of(
    document: Seq<char>,
    declared: Option<Option<Seq<char>>>,
) -> Seq<FindingView> {
    match declared {
        None => seq![],
        Some(Some(version)) => if version == KNOWN_OKF_VERSION@ {
            seq![]
        } else {
            seq![
                Rule::RootIndexVersion.spec_finding(
                    document,
                    "Root Index File declares unknown OKF version "@ + version
                        + "; best-effort verification will be used"@,
                    Some(2),
                    Some(1),
                ),
            ]
        },
        Some(None) => seq![
            Rule::RootIndexVersion.spec_finding(
                document,
                "Root Index File okf_version should be a string"@,
                Some(2),
                Some(1),
            ),
        ],
    }
}

/// Findings of an Index File's Frontmatter: none is allowed but in the Root Index
/// File, whose Frontmatter must parse and may declare the OKF version.
pub open spec fn index_frontmatter_findings_of(
    document: Seq<char>,
    raw: Seq<char>,
    is_root: bool,
) -> Seq<FindingView> {
    if !is_root {
        seq![
            Rule::IndexNoFrontmatter.spec_finding(
                document,
                "Index File must not contain frontmatter"@,
                Some(1),
                Some(1),
            ),
        ]
    } else {
        match yaml::yaml_parse(raw) {
            Err(error) => seq![
                Rule::RootIndexFrontmatter.spec_finding(
                    document,
                    "Root Index File frontmatter must be parseable YAML: "@
                        + yaml::yaml_error_text(error),
                    line_of(yaml::yaml_error_position(error)),
                    column_of(yaml::yaml_error_position(error)),
                ),
            ],
            Ok(mapping) => version_findings_of(document, declared_version(mapping)),
        }
    }
}

/// The Findings of Document Verification of an Index File.
pub open spec fn index_findings(document: Seq<char>, contents: Seq<char>, is_root: bool) -> Seq<
    FindingView,
> {
    let ls = lines(contents);
    match split_frontmatter_of(contents) {
        Some((raw, start)) => index_frontmatter_findings_of(document, raw, is_root)
            + entry_findings_of(document, ls, start, ls.len()),
        None => entry_findings_of(document, ls, 0, ls.len()),
    }
}

pub open spec fn opt_opt_chars(value: Option<Option<String>>) -> Option<Option<Seq<char>>> {
    match value {
        None => None,
        Some(inner) => Some(yaml::opt_chars(inner)),
    }
}

/// Adds the suggestion for an Index File entry line without a markdown link.
pub fn check_index_entry_line(
    document: &str,
    line: &str,
    line_number: usize,
    findings: &mut Vec<Finding>,
)
    ensures
        views(final(findings)@) == views(old(findings)@) + entry_finding_of(
            document@,
            line@,
            line_number as nat,
        ),
{
    let v = chars_of(line);
    let (a, _) = trim_bounds(&v, 0, v.len());
    let dash = vec!['-', ' '];
    let star = vec!['*', ' '];
    let link = vec![']', '('];
    proof {
        assert(v@.subrange(0, v@.len() as int) =~= v@);
        assert(dash@ =~= seq!['-', ' ']);
        assert(star@ =~= seq!['*', ' ']);
        assert(link@ =~= seq![']', '(']);
    }
    if (starts_with_in(&v, a, v.len(), &dash) || starts_with_in(&v, a, v.len(), &star))
        && !contains_in(&v, a, v.len(), &link) {
        push_finding(
            findings,
            Rule::IndexEntryLink.finding(
                document.to_owned(),
                "Index File entry is missing a markdown link".to_owned(),
                Some(line_number),
                Some(1),
            ),
        );
        proof {
            assert(views(findings@) =~= views(old(findings)@) + entry_finding_of(
                document@,
                line@,
                line_number as nat,
            ));
        }
    } else {
        proof {
            assert(views(findings@) =~= views(old(findings)@) + entry_finding_of(
                document@,
                line@,
                line_number as nat,
            ));
        }
    }
}

/// Warnings for the `okf_version` that a Root Index File declares: `declared` is
/// `None` when there is no such field, `Some(None)` when its value is not a string.
pub fn okf_version_findings(document: &str, declared: &Option<Option<String>>) -> (report:
    VerificationReport)
    ensures
        report@ == version_findings_of(document@, opt_opt_chars(*declared)),
{
    match declared {
        None => {
            let findings: Vec<Finding> = Vec::new();
            proof {
                assert(views(findings@) =~= seq![]);
            }
            report_of(findings)
        },
        Some(Some(version)) => {
            if str_eq(version.as_str(), KNOWN_OKF_VERSION) {
                let findings: Vec<Finding> = Vec::new();
                proof {
                    assert(views(findings@) =~= seq![]);
                }
                report_of(findings)
            } else {
                let mut message = "Root Index File declares unknown OKF version ".to_owned();
                message.append(version.as_str());
                message.append("; best-effort verification will be used");
                single_finding(
                    Rule::RootIndexVersion.finding(document.to_owned(), message, Some(2), Some(1)),
                )
            }
        },
        Some(None) => single_finding(
            Rule::RootIndexVersion.finding(
                document.to_owned(),
                "Root Index File okf_version should be a string".to_owned(),
                Some(2),
                Some(1),
            ),
        ),
    }
}

/// What a Root Index File's mapping declares as `okf_version`.
pub fn mapping_declared_version(mapping: &serde_yaml::Mapping) -> (declared: Option<
    Option<String>,
>)
    ensures
        opt_opt_chars(declared) == declared_version(*mapping),
{
    match yaml::mapping_get(mapping, "okf_version") {
        None => None,
        Some(value) => Some(yaml::value_as_str(&value)),
    }
}

fn index_frontmatter_findings(document: &str, raw: &str, is_root: bool) -> (report:
    VerificationReport)
    ensures
        report@ == index_frontmatter_findings_of(document@, raw@, is_root),
{
    if !is_root {
        return single_finding(
            Rule::IndexNoFrontmatter.finding(
                document.to_owned(),
                "Index File must not contain frontmatter".to_owned(),
                Some(1),
                Some(1),
            ),
        );
    }
    match yaml::parse_mapping(raw) {
        Err(error) => {
            let message = parse_error_message(
                "Root Index File frontmatter must be parseable YAML: ",
                &error,
            );
            let (line, column) = match yaml::error_location(&error) {
                Some((line, column)) => (Some(line), Some(column)),
                None => (None, None),
            };
            single_finding(
                Rule::RootIndexFrontmatter.finding(document.to_owned(), message, line, column),
            )
        },
        Ok(mapping) => okf_version_findings(document, &mapping_declared_version(&mapping)),
    }
}

/// Document Verification of an Index File: no Frontmatter but in the Root Index File,
/// whose Frontmatter must parse and should declare a known OKF version; entry lines
/// should hold markdown links.
pub fn verify_index_file(document: &str, contents: &str, is_root: bool) -> (report:
    VerificationReport)
    ensures
        report@ == index_findings(document@, contents@, is_root),
{
    let ls = lines_of(contents);
    let ghost all = lines(contents@);
    let mut report = VerificationReport { findings: Vec::new() };
    proof {
        assert(report@ =~= seq![]);
    }
    let start: usize = match split_frontmatter(contents) {
        Some((raw, start)) => {
            report.extend(index_frontmatter_findings(document, raw, is_root));
            start
        },
        None => 0,
    };
    let ghost head = report@;
    let mut findings = report.findings;
    let mut k = start;
    while k < ls.len()
        invariant
            ls@.len() == all.len(),
            forall|j: int| 0 <= j < ls@.len() ==> (#[trigger] ls@[j])@ == all[j],
            start <= k,
            k <= ls@.len() || k == start,
            views(findings@) == head + entry_findings_of(document@, all, start as nat, k as nat),
        decreases ls@.len() - k,
    {
        check_index_entry_line(document, ls[k], k + 1, &mut findings);
        k = k + 1;
        proof {
            assert(views(findings@) =~= head + entry_findings_of(
                document@,
                all,
                start as nat,
                k as nat,
            ));
        }
    }
    proof {
        if k > ls@.len() {
            assert(entry_findings_of(document@, all, start as nat, ls@.len() as nat) == Seq::<
                FindingView,
            >::empty());
        }
        assert(views(findings@) == head + entry_findings_of(
            document@,
            all,
            start as nat,
            all.len(),
        ));
    }
    report_of(findings)
}

} // verus!
