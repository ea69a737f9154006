//! Regular expressions, compiled and matched by the `regex` crate.
use vstd::prelude::*;

verus! {

/// `regex::Regex`, a compiled regular expression, opaque here.
#[verifier::external_type_specification]
#[verifier::external_body]
pub struct ExRegex(regex::Regex);

/// `regex::Error`, why a pattern did not compile, opaque here.
#[verifier::external_type_specification]
#[verifier::external_body]
pub struct ExRegexError(regex::Error);

/// Whether `regex::Regex` compiled from `pattern` finds a match anywhere in
/// `text` (`Regex::is_match`).
pub uninterp spec fn regex_is_match(pattern: Seq<char>, text: Seq<char>) -> bool;

/// Whether `regex::Regex::new` accepts `pattern` (valid syntax, within the
/// crate's default size limits).
pub uninterp spec fn regex_compiles(pattern: Seq<char>) -> bool;

/// The pattern of the external type prefix of a request: a run of one or
/// more lower-case ASCII letters, digits or `-` at the start, followed by a
/// space (such as `"module lodash"`).
pub const EXTERNAL_TYPE_PREFIX_PATTERN: &'static str = "^[a-z0-9-]+ ";

/// A character that may stand in an external type prefix.
pub open spec fn is_type_char(c: char) -> bool {
    ('a' <= c && c <= 'z') || ('0' <= c && c <= '9') || c == '-'
}

/// `text` starts with one or more type characters followed by a space, the
/// space standing at index `k`.
pub open spec fn type_prefix_at(text: Seq<char>, k: int) -> bool {
    &&& 0 < k < text.len()
    &&& text[k] == ' '
    &&& forall|j: int| 0 <= j < k ==> is_type_char(#[trigger] text[j])
}

/// What `EXTERNAL_TYPE_PREFIX_PATTERN` matches: the text starts with a type
/// prefix.
pub open spec fn has_type_prefix(text: Seq<char>) -> bool {
    exists|k: int| type_prefix_at(text, k)
}

/// A compiled regular expression together with the pattern it was compiled
/// from.
pub struct CompiledPattern {
    source: String,
    regex: regex::Regex,
}

/// The pattern could not be compiled.
pub struct PatternError {
    pub error: regex::Error,
}

impl CompiledPattern {
    /// The pattern this expression was compiled from.
    pub closed spec fn source(&self) -> Seq<char> {
        self.source@
    }

    /// Compiles `pattern` with `regex::Regex::new`.
    ///
    /// Trusted: whether it succeeds depends on the pattern alone
    /// (`regex_compiles`); on success the value remembers `pattern` as its
    /// source; the fixed pattern `EXTERNAL_TYPE_PREFIX_PATTERN` is valid and
    /// small, so it always compiles.
    #[verifier::external_body]
    pub(crate) fn new(pattern: &str) -> (r: Result<CompiledPattern, PatternError>)
        ensures
            r is Ok <==> regex_compiles(pattern@),
            r matches Ok(p) ==> p.source() == pattern@,
            pattern@ == EXTERNAL_TYPE_PREFIX_PATTERN@ ==> r is Ok,
    {
        match regex::Regex::new(pattern) {
            Ok(regex) => Ok(CompiledPattern { source: pattern.to_string(), regex }),
            Err(error) => Err(PatternError { error }),
        }
    }

    /// Tests `text` with `regex::Regex::is_match`.
    ///
    /// Trusted: the answer is a function of the pattern and the text; for
    /// `EXTERNAL_TYPE_PREFIX_PATTERN` (anchored at the start, one or more of
    /// `[a-z0-9-]`, then a space) it is `has_type_prefix`.
    #[verifier::external_body]
    pub(crate) fn is_match(&self, text: &str) -> (r: bool)
        ensures
            r == regex_is_match(self.source(), text@),
            self.source() == EXTERNAL_TYPE_PREFIX_PATTERN@ ==> r == has_type_prefix(text@),
    {
        self.regex.is_match(text)
    }
}

impl CompiledPattern {
    /// Compiles a regular expression; `Err` where the pattern is refused.
    pub fn compile(pattern: &str) -> (r: Result<CompiledPattern, PatternError>)
        ensures
            r is Ok <==> regex_compiles(pattern@),
            r matches Ok(p) ==> p.source() == pattern@,
            pattern@ == EXTERNAL_TYPE_PREFIX_PATTERN@ ==> r is Ok,
    {
        CompiledPattern::new(pattern)
    }

    /// Whether the expression matches somewhere in `text`.
    pub fn test(&self, text: &str) -> (r: bool)
        ensures
            r == regex_is_match(self.source(), text@),
    {
        self.is_match(text)
    }
}

} // verus!
