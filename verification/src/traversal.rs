//! Traversal of a Knowledge Bundle: how each markdown file found under the Bundle Root
//! is classified, which files Exclusions leave out of the Verification Scope, and the
//! Verification of the classified documents.
//!
//! Walking the directories and reading files is the caller's part; here a document is
//! known by the display of its path, its file name and its path relative to the Bundle
//! Root.

use vstd::prelude::*;

use crate::text::{chars_of, range_eq, starts_with, starts_with_in, str_eq};
use crate::verification::links::{
    bundle_segments, bundle_segments_of, concept_link_findings, dir_segments_of, link_findings,
};
use crate::verification::{
    concept_findings, index_findings, log_findings, verify_concept_document, verify_index_file,
    verify_log_file, views, FindingView, VerificationReport,
};

verus! {

/// What an OKF Document is within its Knowledge Bundle.
#[derive(Debug, Clone, Copy, PartialEq, Eq, Structural)]
pub enum OkfDocumentKind {
    ConceptDocument,
    RootIndexFile,
    IndexFile,
    LogFile,
}

/// An OKF Document found by Traversal: the display of its path, its kind, and its
/// path relative to the Bundle Root with `/` between directories.
#[derive(Debug, Clone, PartialEq, Eq)]
pub struct OkfDocument {
    path: String,
    kind: OkfDocumentKind,
    relative: String,
}

impl View for OkfDocument {
    type V = (Seq<char>, OkfDocumentKind, Seq<char>);

    closed spec fn view(&self) -> (Seq<char>, OkfDocumentKind, Seq<char>) {
        (self.path@, self.kind, self.relative@)
    }
}

/// The file name is `expected`.
pub open spec fn file_name_is(file_name: Option<Seq<char>>, expected: Seq<char>) -> bool {
    file_name == Some(expected)
}

/// The kind of a document: the Index File at the Bundle Root, other Index Files, Log
/// Files, and Concept Documents for every other markdown file.
pub open spec fn kind_of(is_root_index: bool, file_name: Option<Seq<char>>) -> OkfDocumentKind {
    if is_root_index {
        OkfDocumentKind::RootIndexFile
    } else if file_name_is(file_name, "index.md"@) {
        OkfDocumentKind::IndexFile
    } else if file_name_is(file_name, "log.md"@) {
        OkfDocumentKind::LogFile
    } else {
        OkfDocumentKind::ConceptDocument
    }
}

pub open spec fn opt_str_chars(s: Option<&str>) -> Option<Seq<char>> {
    match s {
        Some(s) => Some(s@),
        None => None,
    }
}

impl OkfDocument {
    /// A classified document: `relative` is its path relative to the Bundle Root,
    /// `is_root_index` says that its path is the Root Index File's, `file_name` is its
    /// file name when that is valid UTF-8.
    pub fn classify(
        path: String,
        relative: String,
        is_root_index: bool,
        file_name: Option<&str>,
    ) -> (document: OkfDocument)
        ensures
            document@ == (path@, kind_of(is_root_index, opt_str_chars(file_name)), relative@),
    {
        let kind = if is_root_index {
            OkfDocumentKind::RootIndexFile
        } else if is_index_file(file_name) {
            OkfDocumentKind::IndexFile
        } else if is_log_file(file_name) {
            OkfDocumentKind::LogFile
        } else {
            OkfDocumentKind::ConceptDocument
        };
        OkfDocument { path, kind, relative }
    }

    pub fn path(&self) -> (path: &str)
        ensures
            path@ == self@.0,
    {
        self.path.as_str()
    }

    /// The path relative to the Bundle Root.
    pub fn relative(&self) -> (relative: &str)
        ensures
            relative@ == self@.2,
    {
        self.relative.as_str()
    }

    pub fn kind(&self) -> (kind: OkfDocumentKind)
        ensures
            kind == self@.1,
    {
        self.kind
    }

    pub fn is_concept_document(&self) -> (r: bool)
        ensures
            r == (self@.1 == OkfDocumentKind::ConceptDocument),
    {
        self.kind == OkfDocumentKind::ConceptDocument
    }
}

/// The file name is `expected`.
pub fn has_file_name(file_name: Option<&str>, expected: &str) -> (r: bool)
    ensures
        r == file_name_is(opt_str_chars(file_name), expected@),
{
    match file_name {
        Some(name) => str_eq(name, expected),
        None => false,
    }
}

/// The file name is that of an Index File.
pub fn is_index_file(file_name: Option<&str>) -> (r: bool)
    ensures
        r == file_name_is(opt_str_chars(file_name), "index.md"@),
{
    has_file_name(file_name, "index.md")
}

/// The file name is that of a Log File.
pub fn is_log_file(file_name: Option<&str>) -> (r: bool)
    ensures
        r == file_name_is(opt_str_chars(file_name), "log.md"@),
{
    has_file_name(file_name, "log.md")
}

/// A markdown file that is neither an Index File nor a Log File.
pub fn is_concept_document_file(extension: Option<&str>, file_name: Option<&str>) -> (r: bool)
    ensures
        r == (opt_str_chars(extension) == Some("md"@) && !file_name_is(
            opt_str_chars(file_name),
            "index.md"@,
        ) && !file_name_is(opt_str_chars(file_name), "log.md"@)),
{
    let markdown = match extension {
        Some(extension) => str_eq(extension, "md"),
        None => false,
    };
    markdown && !is_index_file(file_name) && !is_log_file(file_name)
}

/// An Exclusion covers a path relative to the Bundle Root when the path is the
/// Exclusion or begins with it.
pub open spec fn excluded_by(relative: Seq<char>, exclusions: Seq<String>) -> bool {
    exists|i: int|
        0 <= i < exclusions.len() && (relative == (#[trigger] exclusions[i])@ || starts_with(
            relative,
            exclusions[i]@,
        ))
}

/// Some Exclusion covers the path relative to the Bundle Root.
pub fn is_excluded(relative: &str, exclusions: &Vec<String>) -> (r: bool)
    ensures
        r == excluded_by(relative@, exclusions@),
{
    let v = chars_of(relative);
    proof {
        assert(v@.subrange(0, v@.len() as int) =~= v@);
    }
    let mut i: usize = 0;
    while i < exclusions.len()
        invariant
            v@ == relative@,
            v@.subrange(0, v@.len() as int) == v@,
            i <= exclusions@.len(),
            forall|j: int|
                0 <= j < i ==> !(relative@ == (#[trigger] exclusions@[j])@ || starts_with(
                    relative@,
                    exclusions@[j]@,
                )),
        decreases exclusions@.len() - i,
    {
        let e = chars_of(exclusions[i].as_str());
        assert(e@ == exclusions@[i as int]@);
        if range_eq(&v, 0, v.len(), &e) || starts_with_in(&v, 0, v.len(), &e) {
            assert(relative@ == (exclusions@[i as int])@ || starts_with(
                relative@,
                exclusions@[i as int]@,
            ));
            return true;
        }
        i = i + 1;
    }
    false
}

/// The documents whose relative path no Exclusion covers, in their order, each with
/// what the caller keeps beside it (such as where to read it from).
pub fn verification_scope<T>(documents: Vec<(OkfDocument, T)>, exclusions: &Vec<String>) -> (scope:
    Vec<(OkfDocument, T)>)
    ensures
        scope@ == in_scope(documents@, exclusions@, documents@.len() as nat),
{
    let ghost all = documents@;
    let total: usize = documents.len();
    let mut rest = documents;
    let mut scope: Vec<(OkfDocument, T)> = Vec::new();
    let mut i: usize = 0;
    while rest.len() > 0
        invariant
            all.len() == total,
            i + rest@.len() == all.len(),
            rest@ == all.skip(i as int),
            scope@ == in_scope(all, exclusions@, i as nat),
        decreases rest@.len(),
    {
        let (document, kept) = rest.remove(0);
        proof {
            assert(all[i as int] == (document, kept));
        }
        if !is_excluded(document.relative(), exclusions) {
            scope.push((document, kept));
        }
        i = i + 1;
        proof {
            assert(rest@ =~= all.skip(i as int));
            assert(scope@ =~= in_scope(all, exclusions@, i as nat));
        }
    }
    scope
}

/// Among the first `n` documents, those whose relative path no Exclusion covers.
pub open spec fn in_scope<T>(
    documents: Seq<(OkfDocument, T)>,
    exclusions: Seq<String>,
    n: nat,
) -> Seq<(OkfDocument, T)>
    decreases n,
{
    if n == 0 || n > documents.len() {
        seq![]
    } else {
        in_scope(documents, exclusions, (n - 1) as nat) + if excluded_by(
            documents[n - 1].0@.2,
            exclusions,
        ) {
            seq![]
        } else {
            seq![documents[n - 1]]
        }
    }
}

impl OkfDocument {
    /// A copy of the document.
    pub fn clone_document(&self) -> (copy: OkfDocument)
        ensures
            copy == *self,
    {
        OkfDocument { path: self.path.clone(), kind: self.kind, relative: self.relative.clone() }
    }
}

/// The Findings of Document Verification of a document of the given kind.
#[verifier::opaque]
pub open spec fn document_findings(
    kind: OkfDocumentKind,
    document: Seq<char>,
    contents: Seq<char>,
) -> Seq<FindingView> {
    match kind {
        OkfDocumentKind::RootIndexFile => index_findings(document, contents, true),
        OkfDocumentKind::IndexFile => index_findings(document, contents, false),
        OkfDocumentKind::LogFile => log_findings(document, contents),
        OkfDocumentKind::ConceptDocument => concept_findings(document, contents),
    }
}

/// Document Verification of a classified document, by its kind.
pub fn verify_document(document: &OkfDocument, contents: &str) -> (report: VerificationReport)
    ensures
        report@ == document_findings(document@.1, document@.0, contents@),
{
    proof {
        reveal(document_findings);
    }
    let path = document.path();
    match document.kind() {
        OkfDocumentKind::RootIndexFile => verify_index_file(path, contents, true),
        OkfDocumentKind::IndexFile => verify_index_file(path, contents, false),
        OkfDocumentKind::LogFile => verify_log_file(path, contents),
        OkfDocumentKind::ConceptDocument => verify_concept_document(path, contents),
    }
}

/// The Findings of Bundle Verification of one document: those of its Document
/// Verification and, for a Concept Document, its Broken Links among `bundle_paths`,
/// the relative paths of the Knowledge Bundle's OKF Documents.
pub open spec fn bundle_document_findings(
    document: OkfDocument,
    contents: Seq<char>,
    bundle_paths: Seq<String>,
) -> Seq<FindingView> {
    document_findings(document@.1, document@.0, contents) + if document@.1
        == OkfDocumentKind::ConceptDocument {
        link_findings(document@.0, document@.2, contents, bundle_paths)
    } else {
        seq![]
    }
}

/// The Findings of Bundle Verification of the first `n` documents, each document's
/// Findings after those of the documents before it.
pub open spec fn bundle_findings(
    documents: Seq<(OkfDocument, String)>,
    bundle_paths: Seq<String>,
    n: nat,
) -> Seq<FindingView>
    decreases n,
{
    if n == 0 || n > documents.len() {
        seq![]
    } else {
        bundle_findings(documents, bundle_paths, (n - 1) as nat) + bundle_document_findings(
            documents[n - 1].0,
            documents[n - 1].1@,
            bundle_paths,
        )
    }
}

/// Bundle Verification: each document of the Verification Scope, given with its text,
/// verified by its kind, in order; the Concept Links of each Concept Document are
/// checked against `bundle_paths`, the relative paths of every OKF Document of the
/// Knowledge Bundle.
pub fn verify_bundle_documents(
    documents: &Vec<(OkfDocument, String)>,
    bundle_paths: &Vec<String>,
) -> (report: VerificationReport)
    ensures
        report@ == bundle_findings(documents@, bundle_paths@, documents@.len() as nat),
{
    let known = bundle_segments_of(bundle_paths);
    let mut report = VerificationReport { findings: Vec::new() };
    proof {
        assert(report@ =~= seq![]);
    }
    let mut i: usize = 0;
    while i < documents.len()
        invariant
            i <= documents@.len(),
            crate::verification::links::known_views(known@) == bundle_segments(bundle_paths@),
            report@ == bundle_findings(documents@, bundle_paths@, i as nat),
        decreases documents@.len() - i,
    {
        let (document, contents) = &documents[i];
        let ghost before = report@;
        report.extend(verify_document(document, contents.as_str()));
        if document.is_concept_document() {
            let dir = dir_segments_of(document.relative());
            report.extend(concept_link_findings(document.path(), &dir, contents.as_str(), &known));
        } else {
            proof {
                assert(report@ =~= report@ + Seq::<FindingView>::empty());
            }
        }
        i = i + 1;
        proof {
            assert(report@ =~= before + bundle_document_findings(
                documents@[i - 1].0,
                documents@[i - 1].1@,
                bundle_paths@,
            ));
        }
    }
    report
}

} // verus!
