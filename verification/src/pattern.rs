//! Regular expressions, matched by the `regex` crate.
//!
//! What a regular expression matches is `regex`'s to decide; the library
//! names those results and states its own logic over the names.

use vstd::prelude::*;

verus! {

#[verifier::external_type_specification]
#[verifier::external_body]
pub struct ExRegex(regex::Regex);

#[verifier::external_type_specification]
#[verifier::external_body]
pub struct ExRegexError(regex::Error);

/// Whether `regex::Regex::new` accepts `pattern`.
pub uninterp spec fn regex_accepts(pattern: Seq<char>) -> bool;

/// The capture groups of the first (leftmost-first) match of the regex
/// `pattern` in `text`, as `Regex::captures` finds them: group 0 is the
/// whole match, a group is `None` where it took no part in the match.
pub uninterp spec fn regex_captures(pattern: Seq<char>, text: Seq<char>) -> Option<Seq<Option<Seq<char>>>>;

/// The capture groups of each successive non-overlapping match of the regex
/// `pattern` in `text`, as `Regex::captures_iter` yields them.
pub uninterp spec fn regex_captures_all(pattern: Seq<char>, text: Seq<char>) -> Seq<Seq<Option<Seq<char>>>>;

/// The text of each successive non-overlapping match of the regex `pattern`
/// in `text`, as `Regex::find_iter` yields them.
pub uninterp spec fn regex_matches(pattern: Seq<char>, text: Seq<char>) -> Seq<Seq<char>>;

/// Calls `regex::Regex::new`; trusted to succeed exactly on the patterns
/// that `regex_accepts` names (a function of the pattern alone).
#[verifier::external_body]
fn compile(pattern: &str) -> (r: Result<regex::Regex, regex::Error>)
    ensures
        r is Ok <==> regex_accepts(pattern@),
{
    regex::Regex::new(pattern)
}

/// A regular expression that `regex` refused to compile.
#[derive(Debug)]
pub struct InvalidPattern {
    pub pattern: String,
}

/// A compiled regular expression together with the pattern it was compiled
/// from. The fields are private and `Pattern::new` is the only constructor,
/// so `re` is always the compilation of `source`.
pub struct Pattern {
    source: String,
    re: regex::Regex,
}

impl Pattern {
    /// The pattern this regular expression was compiled from.
    pub closed spec fn source(&self) -> Seq<char> {
        self.source@
    }

    /// Compiles `source`; `None` where `regex` rejects it.
    pub fn new(source: &str) -> (r: Option<Pattern>)
        ensures
            r is Some <==> regex_accepts(source@),
            r matches Some(p) ==> p.source() == source@,
    {
        match compile(source) {
            Ok(re) => Some(Pattern { source: source.to_owned(), re }),
            Err(_) => None,
        }
    }

    /// Calls `Regex::captures` and copies out each group's text; trusted to
    /// return what `regex_captures` names for this pattern and `text`.
    #[verifier::external_body]
    pub(crate) fn captures(&self, text: &str) -> (r: Option<Vec<Option<String>>>)
        ensures
            r.deep_view() == regex_captures(self.source(), text@),
    {
        self.re.captures(text).map(|c| c.iter().map(|m| m.map(|m| m.as_str().to_string())).collect())
    }

    /// Calls `Regex::captures_iter` and copies out each group's text; trusted
    /// to return what `regex_captures_all` names for this pattern and `text`.
    #[verifier::external_body]
    pub(crate) fn captures_all(&self, text: &str) -> (r: Vec<Vec<Option<String>>>)
        ensures
            r.deep_view() == regex_captures_all(self.source(), text@),
    {
        self.re.captures_iter(text).map(
            |c| c.iter().map(|m| m.map(|m| m.as_str().to_string())).collect(),
        ).collect()
    }

    /// Calls `Regex::find_iter` and copies out each match's text; trusted to
    /// return what `regex_matches` names for this pattern and `text`.
    #[verifier::external_body]
    pub(crate) fn matches(&self, text: &str) -> (r: Vec<String>)
        ensures
            r.deep_view() == regex_matches(self.source(), text@),
    {
        self.re.find_iter(text).map(|m| m.as_str().to_string()).collect()
    }
}

/// The text of group `i` of a match, or nothing where the group is absent.
pub open spec fn group(c: Seq<Option<Seq<char>>>, i: int) -> Seq<char> {
    if 0 <= i < c.len() && c[i] is Some {
        c[i]->0
    } else {
        seq![]
    }
}

/// Exec form of `group`.
pub fn group_text(c: &Vec<Option<String>>, i: usize) -> (s: String)
    ensures
        s@ == group(c.deep_view(), i as int),
{
    if i < c.len() {
        match &c[i] {
            Some(t) => t.clone(),
            None => String::new(),
        }
    } else {
        String::new()
    }
}

} // verus!
