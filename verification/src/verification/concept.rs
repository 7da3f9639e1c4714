//! Document Verification of Concept Documents: Frontmatter that opens, closes and
//! parses, a Concept Type, and a Description.

use vstd::prelude::*;

use super::rules::Rule;
use super::{
    column_of, line_of, parse_error_message, push_finding, report_of, single_finding, views,
    Finding, FindingView, VerificationReport,
};
use crate::document::{closed_frontmatter_of, has_opening, OkfDocumentText};
use crate::text::{chars_of, trim, trim_bounds};
use crate::yaml;

verus! {

/// The optional field holds a string with a non-whitespace character.
pub open spec fn non_empty(value: Option<Seq<char>>) -> bool {
    match value {
        Some(s) => trim(s).len() > 0,
        None => false,
    }
}

/// Findings of a Concept Document's parsed Frontmatter, given its `type` and
/// `description` string values: a missing Concept Type is an error, a missing
/// Description a warning.
pub open spec fn concept_field_findings_of(
    document: Seq<char>,
    concept_type: Option<Seq<char>>,
    description: Option<Seq<char>>,
) -> Seq<FindingView> {
    (if non_empty(concept_type) {
        seq![]
    } else {
        seq![
            Rule::ConceptType.spec_finding(
                document,
                "Concept Document Frontmatter must include a Concept Type"@,
                Some(2),
                Some(1),
            ),
        ]
    }) + (if non_empty(description) {
        seq![]
    } else {
        seq![
            Rule::ConceptDescription.spec_finding(
                document,
                "Concept Document Frontmatter should include a Description"@,
                Some(2),
                Some(1),
            ),
        ]
    })
}

/// The Findings of Document Verification of a Concept Document.
pub open spec fn concept_findings(document: Seq<char>, contents: Seq<char>) -> Seq<FindingView> {
    if !has_opening(contents) {
        seq![
            Rule::ConceptFrontmatter.spec_finding(
                document,
                "Concept Document must start with Frontmatter delimited by ---"@,
                Some(1),
                Some(1),
            ),
        ]
    } else {
        match closed_frontmatter_of(contents) {
            None => seq![
                Rule::ConceptFrontmatter.spec_finding(
                    document,
                    "Concept Document Frontmatter must have a closing --- delimiter"@,
                    Some(1),
                    Some(1),
                ),
            ],
            Some((raw, _)) => match yaml::yaml_parse(raw) {
                Err(error) => seq![
                    Rule::ConceptFrontmatter.spec_finding(
                        document,
                        "Concept Document Frontmatter must be parseable YAML: "@
                            + yaml::yaml_error_text(error),
                        line_of(yaml::yaml_error_position(error)),
                        column_of(yaml::yaml_error_position(error)),
                    ),
                ],
                Ok(mapping) => concept_field_findings_of(
                    document,
                    yaml::string_field(mapping, "type"@),
                    yaml::string_field(mapping, "description"@),
                ),
            },
        }
    }
}

/// The string holds a non-whitespace character.
pub fn is_non_empty(value: &Option<String>) -> (r: bool)
    ensures
        r == non_empty(yaml::opt_chars(*value)),
{
    match value {
        Some(s) => {
            let v = chars_of(s.as_str());
            let (a, b) = trim_bounds(&v, 0, v.len());
            proof {
                assert(v@.subrange(0, v@.len() as int) =~= v@);
            }
            a < b
        },
        None => false,
    }
}

/// The string value under `key` holds a non-whitespace character.
pub fn has_non_empty_string_field(frontmatter: &serde_yaml::Mapping, key: &str) -> (r: bool)
    ensures
        r == non_empty(yaml::string_field(*frontmatter, key@)),
{
    is_non_empty(&yaml::mapping_string(frontmatter, key))
}

/// Findings of a Concept Document's parsed Frontmatter, from its `type` and
/// `description` string values.
pub fn concept_field_findings(
    document: &str,
    concept_type: &Option<String>,
    description: &Option<String>,
) -> (report: VerificationReport)
    ensures
        report@ == concept_field_findings_of(
            document@,
            yaml::opt_chars(*concept_type),
            yaml::opt_chars(*description),
        ),
{
    let mut findings: Vec<Finding> = Vec::new();
    if !is_non_empty(concept_type) {
        push_finding(
            &mut findings,
            Rule::ConceptType.finding(
                document.to_owned(),
                "Concept Document Frontmatter must include a Concept Type".to_owned(),
                Some(2),
                Some(1),
            ),
        );
    }
    if !is_non_empty(description) {
        push_finding(
            &mut findings,
            Rule::ConceptDescription.finding(
                document.to_owned(),
                "Concept Document Frontmatter should include a Description".to_owned(),
                Some(2),
                Some(1),
            ),
        );
    }
    proof {
        assert(views(findings@) =~= concept_field_findings_of(
            document@,
            yaml::opt_chars(*concept_type),
            yaml::opt_chars(*description),
        ));
    }
    report_of(findings)
}

/// Document Verification of a Concept Document: its Frontmatter must open, close and
/// parse as YAML, and name a Concept Type; it should have a Description.
pub fn verify_concept_document(document: &str, contents: &str) -> (report: VerificationReport)
    ensures
        report@ == concept_findings(document@, contents@),
{
    let text = OkfDocumentText::new(contents);
    if !text.has_frontmatter_opening() {
        return single_finding(
            Rule::ConceptFrontmatter.finding(
                document.to_owned(),
                "Concept Document must start with Frontmatter delimited by ---".to_owned(),
                Some(1),
                Some(1),
            ),
        );
    }
    let block = match text.closed_frontmatter() {
        Some(block) => block,
        None => {
            return single_finding(
                Rule::ConceptFrontmatter.finding(
                    document.to_owned(),
                    "Concept Document Frontmatter must have a closing --- delimiter".to_owned(),
                    Some(1),
                    Some(1),
                ),
            );
        },
    };
    match block.parse_mapping() {
        Err(error) => {
            let message = parse_error_message(
                "Concept Document Frontmatter must be parseable YAML: ",
                &error,
            );
            let position = yaml::error_location(&error);
            let (line, column) = match position {
                Some((line, column)) => (Some(line), Some(column)),
                None => (None, None),
            };
            single_finding(
                Rule::ConceptFrontmatter.finding(document.to_owned(), message, line, column),
            )
        },
        Ok(mapping) => {
            let concept_type = yaml::mapping_string(&mapping, "type");
            let description = yaml::mapping_string(&mapping, "description");
            concept_field_findings(document, &concept_type, &description)
        },
    }
}

} // verus!
