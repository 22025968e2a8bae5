use vstd::prelude::*;
use crate::FileGrepError;

verus! {

#[verifier::external_type_specification]
#[verifier::external_body]
pub struct ExRegex(regex::bytes::Regex);

#[verifier::external_type_specification]
#[verifier::external_body]
pub struct ExRegexError(regex::Error);

/// Whether the pattern compiler accepts a given pattern text. With the
/// compiler's default configuration, acceptance is a function of the pattern
/// text alone.
pub uninterp spec fn regex_compiles(pattern: Seq<char>) -> bool;

/// The leftmost occurrence that the pattern-matching engine reports for a
/// given pattern text in a given haystack: `None` when the haystack holds no
/// occurrence, otherwise the byte offsets `(start, end)` of the first one,
/// relative to the haystack. The outcome is a function of the pattern text
/// and the haystack alone.
pub uninterp spec fn regex_find(pattern: Seq<char>, haystack: Seq<u8>) -> Option<(int, int)>;

/// An opaque, reusable, externally-compiled search capability over a textual
/// pattern. Read-only after construction: each search takes an explicit
/// starting offset and is independent of any earlier search. Both fields are
/// private and set only by `compile`, so the stored pattern text is always
/// the text the automaton was compiled from — which is what lets every
/// search result be stated over the pattern text alone.
pub struct Matcher {
    regex: regex::bytes::Regex,
    pattern: String,
}

impl Matcher {
    /// The pattern text this matcher was compiled from.
    pub closed spec fn pattern(&self) -> Seq<char> {
        self.pattern@
    }

    /// Relies on regex::bytes::Regex::new: whether it accepts a pattern is
    /// decided by the pattern text alone, and on success the returned
    /// automaton searches for exactly the pattern text it was handed, which
    /// is stored beside it so that every later search can be stated over it.
    #[verifier::external_body]
    fn compile(pattern: &str) -> (r: Result<Matcher, regex::Error>)
        ensures
            r is Ok <==> regex_compiles(pattern@),
            r is Ok ==> r->Ok_0.pattern() == pattern@,
    {
        match regex::bytes::Regex::new(pattern) {
            Ok(re) => Ok(Matcher { regex: re, pattern: pattern.to_string() }),
            Err(e) => Err(e),
        }
    }

    /// Compiles the textual pattern into a matcher: exactly the patterns the
    /// compiler accepts yield one. An invalid pattern yields the compiler's
    /// own error text, wrapped in the library's error type.
    pub fn new(pattern: &str) -> (r: Result<Matcher, FileGrepError>)
        ensures
            r is Ok <==> regex_compiles(pattern@),
            r is Ok ==> r->Ok_0.pattern() == pattern@,
    {
        match Self::compile(pattern) {
            Ok(m) => Ok(m),
            Err(e) => Err(FileGrepError::new(regex_error_message(&e))),
        }
    }

    /// Relies on regex::bytes::Regex::find: it returns the leftmost match of
    /// the compiled pattern in the haystack, as byte offsets with
    /// `start <= end <= haystack.len()`, and `None` exactly when the haystack
    /// holds no match. Here the haystack is the suffix of `line` that starts
    /// at `from`, and the offsets returned are relative to that suffix.
    #[verifier::external_body]
    pub(crate) fn find_in_suffix(&self, line: &Vec<u8>, from: usize) -> (r: Option<
        (usize, usize),
    >)
        requires
            from <= line@.len(),
        ensures
            match r {
                Some(p) => p.0 <= p.1 && from + p.1 <= line@.len() && regex_find(
                    self.pattern(),
                    line@.subrange(from as int, line@.len() as int),
                ) == Some((p.0 as int, p.1 as int)),
                None => regex_find(
                    self.pattern(),
                    line@.subrange(from as int, line@.len() as int),
                ) is None,
            },
    {
        self.regex.find(&line[from..]).map(|m| (m.start(), m.end()))
    }
}

/// Relies on the Display implementation of regex::Error: the human-readable
/// description of why a pattern failed to compile, surfaced verbatim.
#[verifier::external_body]
pub(crate) fn regex_error_message(e: &regex::Error) -> String {
    e.to_string()
}

} // verus!
