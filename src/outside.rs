use vstd::prelude::*;

use crate::rules::opt_view;
use crate::tomldoc::TomlValue;

verus! {

/// Whether `glob::Pattern::new` accepts `pattern`.
pub uninterp spec fn glob_compiles(pattern: Seq<char>) -> bool;

/// What `glob::Pattern::matches` answers for the compiled `pattern` on `text`.
pub uninterp spec fn glob_accepts(pattern: Seq<char>, text: Seq<char>) -> bool;

/// Whether `regex::Regex::new` accepts `pattern`.
pub uninterp spec fn regex_compiles(pattern: Seq<char>) -> bool;

/// What `regex::Regex::is_match` answers for the compiled `pattern` on `text`.
pub uninterp spec fn regex_finds(pattern: Seq<char>, text: Seq<char>) -> bool;

/// What `std::path::Path::starts_with` answers: whether the components of `base`
/// are a leading run of the components of `path`.
pub uninterp spec fn path_has_base(path: Seq<char>, base: Seq<char>) -> bool;

/// Relies on `glob::Pattern::new` (an error for a malformed pattern) and on
/// `glob::Pattern::matches` of the compiled pattern.
#[verifier::external_body]
pub(crate) fn glob_match(pattern: &str, text: &str) -> (r: Option<bool>)
    ensures
        r == (if glob_compiles(pattern@) {
            Some(glob_accepts(pattern@, text@))
        } else {
            None::<bool>
        }),
{
    match glob::Pattern::new(pattern) {
        Ok(compiled) => Some(compiled.matches(text)),
        Err(_) => None,
    }
}

/// Relies on `regex::Regex::new` (an error for a malformed or oversized pattern)
/// and on `regex::Regex::is_match` of the compiled expression.
#[verifier::external_body]
pub(crate) fn regex_match(pattern: &str, text: &str) -> (r: Option<bool>)
    ensures
        r == (if regex_compiles(pattern@) {
            Some(regex_finds(pattern@, text@))
        } else {
            None::<bool>
        }),
{
    match regex::Regex::new(pattern) {
        Ok(compiled) => Some(compiled.is_match(text)),
        Err(_) => None,
    }
}

/// Relies on `std::path::Path::starts_with`, which compares whole path components.
#[verifier::external_body]
pub(crate) fn path_starts_with(path: &str, base: &str) -> (r: bool)
    ensures
        r == path_has_base(path@, base@),
{
    std::path::Path::new(path).starts_with(base)
}

/// Relies on `home::home_dir`: the user's home directory as the environment gives
/// it, if any. Nothing is promised of the result.
#[verifier::external_body]
pub(crate) fn home_dir() -> (r: Option<String>) {
    match home::home_dir() {
        Some(h) => Some(h.display().to_string()),
        None => None,
    }
}

/// A TOML value as `toml` reads it.
#[verifier::external_type_specification]
#[verifier::external_body]
pub struct ExTomlValue(toml::Value);

/// What `toml::from_str` reads from a whole TOML document, as plain values; `None`
/// when the text is not valid TOML.
pub uninterp spec fn toml_document_of(text: Seq<char>) -> Option<TomlValue>;

/// Relies on `toml::from_str` reading a whole TOML document into a `toml::Value`,
/// which depends on the text alone; the value is handed over as plain values.
#[verifier::external_body]
pub(crate) fn toml_document(text: &str) -> (r: Option<TomlValue>)
    ensures
        r == toml_document_of(text@),
{
    match toml::from_str::<toml::Value>(text) {
        Ok(v) => Some(plain_toml(&v)),
        Err(_) => None,
    }
}

/// Converts a `toml::Value` variant by variant into the library's `TomlValue`;
/// floats and datetimes become `Other`. Split from `toml_document` only because the
/// conversion recurses into arrays and tables.
#[verifier::external_body]
fn plain_toml(v: &toml::Value) -> (r: TomlValue) {
    match v {
        toml::Value::String(s) => TomlValue::Str(s.clone()),
        toml::Value::Integer(i) => TomlValue::Int(*i),
        toml::Value::Boolean(b) => TomlValue::Bool(*b),
        toml::Value::Array(a) => TomlValue::Array(a.iter().map(plain_toml).collect()),
        toml::Value::Table(t) => TomlValue::Table(t.iter().map(|(k, x)| (k.clone(), plain_toml(x))).collect()),
        _ => TomlValue::Other,
    }
}

/// What `std::path::Path::file_name` gives: the last component, unless it is `..`.
pub uninterp spec fn path_file_name(path: Seq<char>) -> Option<Seq<char>>;

/// What `std::path::Path::with_file_name` gives: `path` with its last component
/// replaced by `name`.
pub uninterp spec fn path_with_file_name(path: Seq<char>, name: Seq<char>) -> Seq<char>;

/// Relies on `std::path::Path::file_name`; a component of a UTF-8 path is UTF-8.
#[verifier::external_body]
pub(crate) fn file_name(path: &str) -> (r: Option<String>)
    ensures
        opt_view(r) == path_file_name(path@),
{
    match std::path::Path::new(path).file_name() {
        Some(n) => Some(n.to_string_lossy().into_owned()),
        None => None,
    }
}

/// Relies on `std::path::Path::with_file_name`.
#[verifier::external_body]
pub(crate) fn with_file_name(path: &str, name: &str) -> (r: String)
    ensures
        r@ == path_with_file_name(path@, name@),
{
    std::path::Path::new(path).with_file_name(name).display().to_string()
}

/// What `char::is_alphabetic` answers: the Unicode `Alphabetic` property.
pub uninterp spec fn alphabetic(c: char) -> bool;

/// Relies on `char::is_alphabetic`.
#[verifier::external_body]
pub(crate) fn is_alphabetic(c: char) -> (r: bool)
    ensures
        r == alphabetic(c),
{
    c.is_alphabetic()
}

} // verus!
