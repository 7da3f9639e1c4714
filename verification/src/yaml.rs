//! The YAML parser of `serde_yaml`, as the Verification logic uses it.
//!
//! The parser itself is not verified here: each outside function that the logic calls has
//! one trusted wrapper below, and each result that is a function of its arguments alone
//! has a name.

use vstd::prelude::*;

verus! {

/// `serde_yaml::Mapping`, opaque: its contents are seen only through `yaml_lookup`.
#[verifier::external_type_specification]
#[verifier::external_body]
pub struct ExYamlMapping(serde_yaml::Mapping);

/// `serde_yaml::Value`, opaque: seen only through `yaml_str` and `yaml_sequence`.
#[verifier::external_type_specification]
#[verifier::external_body]
pub struct ExYamlValue(serde_yaml::Value);

/// `serde_yaml::Error`, opaque: seen only through its text and position.
#[verifier::external_type_specification]
#[verifier::external_body]
pub struct ExYamlError(serde_yaml::Error);

/// What `serde_yaml::from_str::<Mapping>` makes of a text.
pub uninterp spec fn yaml_parse(text: Seq<char>) -> Result<serde_yaml::Mapping, serde_yaml::Error>;

/// The value that `Mapping::get` finds under a string key.
pub uninterp spec fn yaml_lookup(mapping: serde_yaml::Mapping, key: Seq<char>) -> Option<serde_yaml::Value>;

/// What `Value::as_str` gives: the string a value holds, seen through YAML tags.
pub uninterp spec fn yaml_str(value: serde_yaml::Value) -> Option<Seq<char>>;

/// What `Value::as_sequence` gives: the items of a value that is a YAML sequence.
pub uninterp spec fn yaml_sequence(value: serde_yaml::Value) -> Option<Seq<serde_yaml::Value>>;

/// The text that `Error`'s `Display` writes.
pub uninterp spec fn yaml_error_text(error: serde_yaml::Error) -> Seq<char>;

/// The line and column of `Error::location`, when the error has a location.
pub uninterp spec fn yaml_error_position(error: serde_yaml::Error) -> Option<(usize, usize)>;

/// A string as plain characters, for optional strings.
pub open spec fn opt_chars(s: Option<String>) -> Option<Seq<char>> {
    match s {
        Some(s) => Some(s@),
        None => None,
    }
}

/// The string held under `key`: `Mapping::get` then `Value::as_str`.
pub open spec fn string_field(mapping: serde_yaml::Mapping, key: Seq<char>) -> Option<Seq<char>> {
    match yaml_lookup(mapping, key) {
        Some(value) => yaml_str(value),
        None => None,
    }
}

/// Trusted wrapper of `serde_yaml::from_str::<serde_yaml::Mapping>`. Claimed: the
/// outcome, mapping or error, is a function of the text alone (named `yaml_parse`);
/// nothing is claimed about which texts parse or what they parse to.
#[verifier::external_body]
pub(crate) fn parse_mapping(text: &str) -> (parsed: Result<serde_yaml::Mapping, serde_yaml::Error>)
    ensures
        parsed == yaml_parse(text@),
{
    serde_yaml::from_str::<serde_yaml::Mapping>(text)
}

/// Trusted wrapper of `serde_yaml::Mapping::get` with a string key, the value copied
/// out. Claimed: the result is a function of the mapping and the key (named
/// `yaml_lookup`).
#[verifier::external_body]
pub(crate) fn mapping_get(mapping: &serde_yaml::Mapping, key: &str) -> (value: Option<serde_yaml::Value>)
    ensures
        value == yaml_lookup(*mapping, key@),
{
    mapping.get(key).cloned()
}

/// Trusted wrapper of `serde_yaml::Value::as_str`, the string copied out. Claimed: the
/// result is a function of the value (named `yaml_str`).
#[verifier::external_body]
pub(crate) fn value_as_str(value: &serde_yaml::Value) -> (s: Option<String>)
    ensures
        opt_chars(s) == yaml_str(*value),
{
    match value.as_str() {
        Some(s) => Some(s.to_string()),
        None => None,
    }
}

/// Trusted wrapper of `serde_yaml::Value::as_sequence`, the items copied out. Claimed:
/// the result is a function of the value (named `yaml_sequence`).
#[verifier::external_body]
pub(crate) fn value_as_sequence(value: &serde_yaml::Value) -> (items: Option<Vec<serde_yaml::Value>>)
    ensures
        match items {
            Some(items) => yaml_sequence(*value) == Some(items@),
            None => yaml_sequence(*value) is None,
        },
{
    value.as_sequence().cloned()
}

/// Trusted wrapper of the `Display` impl of `serde_yaml::Error`. Claimed: the text is a
/// function of the error (named `yaml_error_text`); nothing about its words.
#[verifier::external_body]
pub(crate) fn error_message(error: &serde_yaml::Error) -> (text: String)
    ensures
        text@ == yaml_error_text(*error),
{
    format!("{error}")
}

/// Trusted wrapper of `serde_yaml::Error::location` with `Location::line` and
/// `Location::column`. Claimed: the line and column are a function of the error (named
/// `yaml_error_position`).
#[verifier::external_body]
pub(crate) fn error_location(error: &serde_yaml::Error) -> (position: Option<(usize, usize)>)
    ensures
        position == yaml_error_position(*error),
{
    match error.location() {
        Some(location) => Some((location.line(), location.column())),
        None => None,
    }
}

/// The string held under `key` in a mapping.
pub fn mapping_string(mapping: &serde_yaml::Mapping, key: &str) -> (s: Option<String>)
    ensures
        opt_chars(s) == string_field(*mapping, key@),
{
    match mapping_get(mapping, key) {
        Some(value) => value_as_str(&value),
        None => None,
    }
}

} // verus!
