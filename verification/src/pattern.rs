//! Regular expressions, compiled and applied by the `regex` crate.
//!
//! An expression enters the crate only through [`Pattern::compile`],
//! which makes it with `Regex::new` and no further options. What an
//! expression answers is therefore settled by its source.

use vstd::prelude::*;
use crate::text::{byte_offset_in_chars, chars_within};

verus! {

/// `regex::Regex`, a compiled regular expression, carried through
/// as it is.
#[verifier::external_type_specification]
#[verifier::external_body]
pub struct ExRegex(regex::Regex);

/// `regex::Error`, the reason why a pattern was turned down. It is
/// never looked into.
#[verifier::external_type_specification]
#[verifier::external_body]
pub struct ExRegexError(regex::Error);

/// Whether `regex::Regex::new` accepts a pattern.
pub uninterp spec fn regex_accepts(pattern: Seq<char>) -> bool;

/// The pattern that a compiled expression was made from, which
/// `Regex::as_str` hands back.
pub uninterp spec fn regex_source(re: regex::Regex) -> Seq<char>;

/// Whether the expression that `Regex::new` makes from `pattern`
/// matches somewhere in `text`, as `Regex::is_match` finds.
pub uninterp spec fn regex_matches(pattern: Seq<char>, text: Seq<char>) -> bool;

/// The byte offset in `text` at which the first match of the
/// expression that `Regex::new` makes from `pattern` starts, as
/// `Regex::find` locates it; none where nothing matches.
pub uninterp spec fn regex_match_start(pattern: Seq<char>, text: Seq<char>) -> Option<usize>;

/// An expression made by `Regex::new`. The field is private, and
/// nothing but [`Pattern::compile`] fills it.
pub struct Pattern {
    regex: regex::Regex,
}

/// Calls `regex::Regex::new`. Which patterns are accepted is not
/// restated: the verdict is [`regex_accepts`]. An accepted pattern
/// is the source of the expression that comes back.
#[verifier::external_body]
fn build(pattern: &str) -> (r: Result<Pattern, regex::Error>)
    ensures
        r.is_ok() == regex_accepts(pattern@),
        r.is_ok() ==> regex_source(r.unwrap().regex) == pattern@,
{
    match regex::Regex::new(pattern) {
        Ok(regex) => Ok(Pattern { regex }),
        Err(e) => Err(e),
    }
}

/// Calls `Regex::is_match` on an expression that `Regex::new` made.
/// The matching rules are not restated: the verdict is
/// [`regex_matches`] of the expression's source and the text.
#[verifier::external_body]
fn ask(p: &Pattern, text: &str) -> (b: bool)
    ensures
        b == regex_matches(regex_source(p.regex), text@),
{
    p.regex.is_match(text)
}

/// Calls `Regex::find` on an expression that `Regex::new` made and
/// hands out where the match starts, in bytes. Which match is found
/// is not restated: the answer is [`regex_match_start`] of the
/// expression's source and the text.
#[verifier::external_body]
fn locate(p: &Pattern, text: &str) -> (r: Option<usize>)
    ensures
        r == regex_match_start(regex_source(p.regex), text@),
{
    match p.regex.find(text) {
        Some(m) => Some(m.start()),
        None => None,
    }
}

/// The position, in characters, at which the first match of the
/// expression made from `pattern` starts in `text`.
pub open spec fn match_position(pattern: Seq<char>, text: Seq<char>) -> Option<int> {
    match regex_match_start(pattern, text) {
        Some(offset) => Some(chars_within(text, offset as int)),
        None => None,
    }
}

impl Pattern {
    /// The pattern that this expression was made from.
    pub closed spec fn source(&self) -> Seq<char> {
        regex_source(self.regex)
    }

    /// Compiles `pattern`, if it is a regular expression.
    pub fn compile(pattern: &str) -> (r: Option<Pattern>)
        ensures
            r.is_some() == regex_accepts(pattern@),
            r.is_some() ==> r.unwrap().source() == pattern@,
    {
        match build(pattern) {
            Ok(p) => Some(p),
            Err(_) => None,
        }
    }

    /// Whether this expression matches somewhere in `text`.
    pub fn is_match(&self, text: &str) -> (b: bool)
        ensures
            b == regex_matches(self.source(), text@),
    {
        ask(self, text)
    }

    /// Where the first match of this expression starts in `text`,
    /// counted in characters.
    pub fn find_start(&self, text: &str) -> (r: Option<usize>)
        ensures
            r.is_some() == match_position(self.source(), text@).is_some(),
            r.is_some() ==> r.unwrap() == match_position(self.source(), text@).unwrap(),
    {
        match locate(self, text) {
            Some(offset) => Some(byte_offset_in_chars(text, offset)),
            None => None,
        }
    }
}

} // verus!
