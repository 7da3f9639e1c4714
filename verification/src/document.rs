//! The text of an OKF Document: where its Frontmatter opens and closes, the value of a
//! metadata field, and its lines.

use vstd::prelude::*;

use crate::text::{
    chars_of, count_newlines, count_newlines_prefix, find_from, find_in, lemma_find_from, lines,
    lines_of, range_eq, starts_with, starts_with_in, trim, trim_bounds,
};
use crate::yaml;

verus! {

/// `---` followed by a line feed: how Frontmatter opens.
pub open spec fn opening_delimiter() -> Seq<char> {
    seq!['-', '-', '-', '\n']
}

/// `---`: a delimiter line on its own.
pub open spec fn delimiter() -> Seq<char> {
    seq!['-', '-', '-']
}

/// A line feed followed by `---`: where Frontmatter closes.
pub open spec fn closing_marker() -> Seq<char> {
    seq!['\n', '-', '-', '-']
}

/// The text opens Frontmatter: it starts with `---` and a line feed, or it is `---`
/// surrounded by whitespace only.
pub open spec fn has_opening(contents: Seq<char>) -> bool {
    starts_with(contents, opening_delimiter()) || trim(contents) == delimiter()
}

/// The closed Frontmatter of a text, as its raw YAML and the index of the first Body
/// line: the text starts with `---` and a line feed and is not `---` alone, and the raw
/// YAML runs from there to the first line feed followed by `---`.
pub open spec fn closed_frontmatter_of(contents: Seq<char>) -> Option<(Seq<char>, nat)> {
    if trim(contents) == delimiter() || !starts_with(contents, opening_delimiter()) {
        None
    } else {
        match find_from(contents, closing_marker(), 4) {
            None => None,
            Some(end) => Some(
                (contents.subrange(4, end), count_newlines(contents.take(end)) + 2),
            ),
        }
    }
}

/// The string value of a metadata field of the closed Frontmatter, when that
/// Frontmatter parses as a YAML mapping.
pub open spec fn metadata_value_of(contents: Seq<char>, key: Seq<char>) -> Option<Seq<char>> {
    match closed_frontmatter_of(contents) {
        None => None,
        Some((raw, _)) => match yaml::yaml_parse(raw) {
            Ok(mapping) => yaml::string_field(mapping, key),
            Err(_) => None,
        },
    }
}

/// Closed Frontmatter within a document: its raw YAML and where the Body starts.
#[derive(Debug, Clone, Copy, PartialEq, Eq)]
pub struct FrontmatterBlock<'a> {
    raw: &'a str,
    body_start_index: usize,
}

impl<'a> View for FrontmatterBlock<'a> {
    type V = (Seq<char>, nat);

    closed spec fn view(&self) -> (Seq<char>, nat) {
        (self.raw@, self.body_start_index as nat)
    }
}

impl<'a> FrontmatterBlock<'a> {
    /// The raw YAML between the delimiters.
    pub fn raw(&self) -> (raw: &'a str)
        ensures
            raw@ == self@.0,
    {
        self.raw
    }

    /// Index of the first line after the closing delimiter.
    pub fn body_start_index(&self) -> (index: usize)
        ensures
            index == self@.1,
    {
        self.body_start_index
    }

    /// The raw YAML parsed as a mapping.
    pub fn parse_mapping(&self) -> (parsed: Result<serde_yaml::Mapping, serde_yaml::Error>)
        ensures
            parsed == yaml::yaml_parse(self@.0),
    {
        yaml::parse_mapping(self.raw)
    }
}

/// The text of an OKF Document.
pub struct OkfDocumentText<'a> {
    contents: &'a str,
}

impl<'a> View for OkfDocumentText<'a> {
    type V = Seq<char>;

    closed spec fn view(&self) -> Seq<char> {
        self.contents@
    }
}

impl<'a> OkfDocumentText<'a> {
    pub fn new(contents: &'a str) -> (text: Self)
        ensures
            text@ == contents@,
    {
        Self { contents }
    }

    /// The document opens Frontmatter.
    pub fn has_frontmatter_opening(&self) -> (r: bool)
        ensures
            r == has_opening(self@),
    {
        let v = chars_of(self.contents);
        let (ts, te) = trim_bounds(&v, 0, v.len());
        let open = vec!['-', '-', '-', '\n'];
        let delim = vec!['-', '-', '-'];
        proof {
            assert(open@ =~= opening_delimiter());
            assert(delim@ =~= delimiter());
            assert(v@.subrange(0, v@.len() as int) =~= v@);
        }
        starts_with_in(&v, 0, v.len(), &open) || range_eq(&v, ts, te, &delim)
    }

    /// The closed Frontmatter, when the document has one.
    pub fn closed_frontmatter(&self) -> (block: Option<FrontmatterBlock<'a>>)
        ensures
            match block {
                Some(b) => closed_frontmatter_of(self@) == Some(b@),
                None => closed_frontmatter_of(self@) is None,
            },
    {
        let v = chars_of(self.contents);
        let (ts, te) = trim_bounds(&v, 0, v.len());
        let open = vec!['-', '-', '-', '\n'];
        let delim = vec!['-', '-', '-'];
        let close = vec!['\n', '-', '-', '-'];
        proof {
            assert(open@ =~= opening_delimiter());
            assert(delim@ =~= delimiter());
            assert(close@ =~= closing_marker());
            assert(v@.subrange(0, v@.len() as int) =~= v@);
        }
        if range_eq(&v, ts, te, &delim) || !starts_with_in(&v, 0, v.len(), &open) {
            return None;
        }
        match find_in(&v, &close, 4) {
            None => None,
            Some(end) => {
                proof {
                    lemma_find_from(v@, close@, 4);
                }
                let raw = self.contents.substring_char(4, end);
                let newlines = count_newlines_prefix(&v, end);
                Some(FrontmatterBlock { raw, body_start_index: newlines + 2 })
            },
        }
    }

    /// The string value of the metadata field `key`.
    pub fn metadata_value(&self, key: &str) -> (value: Option<String>)
        ensures
            yaml::opt_chars(value) == metadata_value_of(self@, key@),
    {
        let block = self.closed_frontmatter()?;
        match block.parse_mapping() {
            Ok(mapping) => yaml::mapping_string(&mapping, key),
            Err(_) => None,
        }
    }

    /// The lines of the document, as `str::lines` splits them.
    pub fn lines(&self) -> (ls: Vec<&'a str>)
        ensures
            ls@.len() == lines(self@).len(),
            forall|k: int| 0 <= k < ls@.len() ==> (#[trigger] ls@[k])@ == lines(self@)[k],
    {
        lines_of(self.contents)
    }
}

} // verus!
