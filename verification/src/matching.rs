//! Regular expressions, glob patterns and JSON documents, computed by the
//! `regex`, `globset` and `serde_json` crates.
use vstd::prelude::*;
use crate::text::string_views;

verus! {

#[verifier::external_type_specification]
#[verifier::external_body]
pub struct ExRegex(regex::Regex);

#[verifier::external_type_specification]
#[verifier::external_body]
pub struct ExGlobSet(globset::GlobSet);

#[verifier::external_type_specification]
#[verifier::external_body]
pub struct ExJsonValue(serde_json::Value);

// ---------------------------------------------------------------------------
// Regular expressions
// ---------------------------------------------------------------------------

/// Whether `regex::Regex::new` accepts a pattern.
pub uninterp spec fn spec_regex_compiles(pattern: Seq<char>) -> bool;

/// What `regex::Regex::is_match` answers for a compiled pattern and a text.
pub uninterp spec fn spec_regex_is_match(pattern: Seq<char>, text: Seq<char>) -> bool;

/// The text of capture group 1 of the first match that `regex::Regex::captures`
/// finds, if there is a match and the group took part in it.
pub uninterp spec fn spec_regex_group1(pattern: Seq<char>, text: Seq<char>) -> Option<Seq<char>>;

/// `regex::Regex::new`: compiles a pattern, or fails for an invalid or too
/// large one.
#[verifier::external_body]
fn regex_new(pattern: &str) -> (r: Option<regex::Regex>)
    ensures
        r is Some == spec_regex_compiles(pattern@),
{
    regex::Regex::new(pattern).ok()
}

/// A compiled regular expression together with the pattern it was compiled
/// from. Its fields are private: `Pattern::compile` is the only way to make one,
/// so the expression always is the compiled form of `source`.
pub struct Pattern {
    source: String,
    re: regex::Regex,
}

impl Pattern {
    pub closed spec fn source(&self) -> Seq<char> {
        self.source@
    }

    /// Compiles a regular expression; `None` when `regex` refuses it.
    pub fn compile(pattern: &str) -> (r: Option<Pattern>)
        ensures
            r is Some == spec_regex_compiles(pattern@),
            r matches Some(p) ==> p.source() == pattern@,
    {
        match regex_new(pattern) {
            Some(re) => Some(Pattern { source: pattern.to_string(), re }),
            None => None,
        }
    }

    /// `regex::Regex::is_match`.
    #[verifier::external_body]
    pub(crate) fn is_match(&self, text: &str) -> (b: bool)
        ensures
            b == spec_regex_is_match(self.source(), text@),
    {
        self.re.is_match(text)
    }

    /// Capture group 1 of the first match (`regex::Regex::captures`).
    #[verifier::external_body]
    pub(crate) fn group1(&self, text: &str) -> (r: Option<String>)
        ensures
            r matches Some(s) ==> spec_regex_group1(self.source(), text@) == Some(s@),
            r is None ==> spec_regex_group1(self.source(), text@) is None,
    {
        match self.re.captures(text) {
            Some(c) => c.get(1).map(|m| m.as_str().to_string()),
            None => None,
        }
    }
}

// ---------------------------------------------------------------------------
// Glob patterns
// ---------------------------------------------------------------------------

/// Whether `globset` accepts all the patterns and builds a set of them.
pub uninterp spec fn spec_glob_set_builds(patterns: Seq<Seq<char>>) -> bool;

/// Whether a name matches at least one glob of a set (`globset::GlobSet::is_match`).
pub uninterp spec fn spec_glob_set_is_match(patterns: Seq<Seq<char>>, name: Seq<char>) -> bool;

/// `globset::Glob::new` on each pattern, then `globset::GlobSet::new`, which
/// builds the empty set from no patterns.
#[verifier::external_body]
fn glob_set_new(patterns: &Vec<String>) -> (r: Option<globset::GlobSet>)
    ensures
        r is Some == spec_glob_set_builds(string_views(patterns@)),
        patterns.len() == 0 ==> r is Some,
{
    let globs: Result<Vec<globset::Glob>, globset::Error> =
        patterns.iter().map(|p| globset::Glob::new(p)).collect();
    globs.and_then(globset::GlobSet::new).ok()
}

/// A set of glob patterns and the matcher built from them. Its fields are
/// private: `NameMatcher::build` is the only way to make one.
pub struct NameMatcher {
    patterns: Vec<String>,
    set: globset::GlobSet,
}

impl NameMatcher {
    pub closed spec fn patterns(&self) -> Seq<Seq<char>> {
        string_views(self.patterns@)
    }

    /// Builds a matcher for the patterns; `None` when one is invalid.
    pub fn build(patterns: &Vec<String>) -> (r: Option<NameMatcher>)
        ensures
            r is Some == spec_glob_set_builds(string_views(patterns@)),
            patterns.len() == 0 ==> r is Some,
            r matches Some(m) ==> m.patterns() == string_views(patterns@),
    {
        match glob_set_new(patterns) {
            Some(set) => Some(NameMatcher { patterns: crate::text::clone_strings(patterns), set }),
            None => None,
        }
    }

    /// `globset::GlobSet::is_match`; an empty set matches nothing.
    #[verifier::external_body]
    pub(crate) fn is_match(&self, name: &str) -> (b: bool)
        ensures
            b == spec_glob_set_is_match(self.patterns(), name@),
            self.patterns().len() == 0 ==> !b,
    {
        self.set.is_match(name)
    }
}

// ---------------------------------------------------------------------------
// JSON documents
// ---------------------------------------------------------------------------

/// Whether `serde_json::from_str::<serde_json::Value>` accepts a text.
pub uninterp spec fn spec_json_parses(text: Seq<char>) -> bool;

/// Whether the parsed document is an object with the given key (`Value::get`).
pub uninterp spec fn spec_json_has_key(text: Seq<char>, key: Seq<char>) -> bool;

/// The value under the key when it is an integer that fits in `u64`
/// (`Value::get` then `Value::as_u64`).
pub uninterp spec fn spec_json_u64_at(text: Seq<char>, key: Seq<char>) -> Option<u64>;

/// The value under the key when it is an integer that fits in `i64`
/// (`Value::get` then `Value::as_i64`).
pub uninterp spec fn spec_json_i64_at(text: Seq<char>, key: Seq<char>) -> Option<i64>;

/// The value under the key when it is a string (`Value::get` then `Value::as_str`).
pub uninterp spec fn spec_json_str_field(text: Seq<char>, key: Seq<char>) -> Option<Seq<char>>;

/// The string under `outer`, then `inner` (`Value::get` twice, then `Value::as_str`).
pub uninterp spec fn spec_json_str_at(text: Seq<char>, outer: Seq<char>, inner: Seq<char>) -> Option<Seq<char>>;

/// The array under `key`, each element taken as the strings under `first`
/// and `second` (`Value::get`, `Value::as_array`, then for each element
/// `Value::get` and `Value::as_str`); `None` when there is no such array.
pub uninterp spec fn spec_json_array_pairs(text: Seq<char>, key: Seq<char>, first: Seq<char>, second: Seq<char>) -> Option<Seq<(Option<Seq<char>>, Option<Seq<char>>)>>;

/// The views of optional strings.
pub open spec fn opt_pair_views(v: Seq<(Option<String>, Option<String>)>) -> Seq<(Option<Seq<char>>, Option<Seq<char>>)> {
    Seq::new(v.len(), |i: int| (
        match v[i].0 {
            Some(s) => Some(s@),
            None => None,
        },
        match v[i].1 {
            Some(s) => Some(s@),
            None => None,
        },
    ))
}

/// The parsed document written out again as compact JSON (`Value`'s `Display`).
pub uninterp spec fn spec_json_compact(text: Seq<char>) -> Seq<char>;

/// `serde_json::from_str` into a `serde_json::Value`.
#[verifier::external_body]
fn json_from_str(text: &str) -> (r: Option<serde_json::Value>)
    ensures
        r is Some == spec_json_parses(text@),
{
    serde_json::from_str::<serde_json::Value>(text).ok()
}

/// A parsed JSON document together with its text. Its fields are private:
/// `JsonDoc::parse` is the only way to make one.
pub struct JsonDoc {
    text: String,
    value: serde_json::Value,
}

impl JsonDoc {
    pub closed spec fn text(&self) -> Seq<char> {
        self.text@
    }

    /// Parses a JSON text; `None` when it is not JSON.
    pub fn parse(text: &str) -> (r: Option<JsonDoc>)
        ensures
            r is Some == spec_json_parses(text@),
            r matches Some(d) ==> d.text() == text@,
    {
        match json_from_str(text) {
            Some(value) => Some(JsonDoc { text: text.to_string(), value }),
            None => None,
        }
    }

    /// `Value::get(key).is_some()`.
    #[verifier::external_body]
    pub(crate) fn has_key(&self, key: &str) -> (b: bool)
        ensures
            b == spec_json_has_key(self.text(), key@),
    {
        self.value.get(key).is_some()
    }

    /// `Value::get(key)` then `Value::as_u64`.
    #[verifier::external_body]
    pub(crate) fn u64_at(&self, key: &str) -> (r: Option<u64>)
        ensures
            r == spec_json_u64_at(self.text(), key@),
            !spec_json_has_key(self.text(), key@) ==> r is None,
    {
        self.value.get(key).and_then(|v| v.as_u64())
    }

    /// `Value::get(key)` then `Value::as_i64`.
    #[verifier::external_body]
    pub(crate) fn i64_at(&self, key: &str) -> (r: Option<i64>)
        ensures
            r == spec_json_i64_at(self.text(), key@),
    {
        self.value.get(key).and_then(|v| v.as_i64())
    }

    /// `Value::get(key)` then `Value::as_str`.
    #[verifier::external_body]
    pub(crate) fn str_field(&self, key: &str) -> (r: Option<String>)
        ensures
            r matches Some(s) ==> spec_json_str_field(self.text(), key@) == Some(s@),
            r is None ==> spec_json_str_field(self.text(), key@) is None,
    {
        self.value.get(key).and_then(|v| v.as_str()).map(|s| s.to_string())
    }

    /// The document as compact JSON text.
    #[verifier::external_body]
    pub(crate) fn compact(&self) -> (r: String)
        ensures
            r@ == spec_json_compact(self.text()),
    {
        self.value.to_string()
    }

    /// The elements of the array under `key` as two of their string fields.
    #[verifier::external_body]
    pub(crate) fn array_pairs(&self, key: &str, first: &str, second: &str) -> (r: Option<Vec<(Option<String>, Option<String>)>>)
        ensures
            r matches Some(v) ==> spec_json_array_pairs(self.text(), key@, first@, second@) == Some(opt_pair_views(v@)),
            r is None ==> spec_json_array_pairs(self.text(), key@, first@, second@) is None,
    {
        self.value.get(key).and_then(|v| v.as_array()).map(|items| {
            items.iter().map(|a| (
                a.get(first).and_then(|v| v.as_str()).map(|s| s.to_string()),
                a.get(second).and_then(|v| v.as_str()).map(|s| s.to_string()),
            )).collect()
        })
    }

    /// `Value::get(outer)`, `Value::get(inner)`, then `Value::as_str`.
    #[verifier::external_body]
    pub(crate) fn str_at(&self, outer: &str, inner: &str) -> (r: Option<String>)
        ensures
            r matches Some(s) ==> spec_json_str_at(self.text(), outer@, inner@) == Some(s@),
            r is None ==> spec_json_str_at(self.text(), outer@, inner@) is None,
    {
        self.value.get(outer).and_then(|v| v.get(inner)).and_then(|v| v.as_str()).map(|s| s.to_string())
    }
}

} // verus!
