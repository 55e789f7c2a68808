//! The trusted boundary around the `regex` crate: pattern compilation,
//! literal escaping, and matching. Regular-expression semantics are not
//! restated here; matching is named by an uninterpreted function of the
//! pattern and the text, which is sound because the crate's matching is a
//! pure function of those two values.

use vstd::prelude::*;

verus! {

#[verifier::external_type_specification]
#[verifier::external_body]
pub struct ExRegex(regex::Regex);

/// Whether `regex::Regex::new` accepts `pattern`; a function of the pattern
/// alone.
pub uninterp spec fn regex_compiles(pattern: Seq<char>) -> bool;

/// Whether the regex compiled from `pattern` matches somewhere in `text`; a
/// function of the two alone.
pub uninterp spec fn regex_accepts(pattern: Seq<char>, text: Seq<char>) -> bool;

/// The pattern `regex::escape` builds from `text`: one that stands for the
/// literal text.
pub uninterp spec fn escaped(text: Seq<char>) -> Seq<char>;

/// A compiled pattern together with the text it was compiled from.
pub struct CompiledPattern {
    regex: regex::Regex,
    pattern: String,
}

impl CompiledPattern {
    /// The pattern text this value was compiled from.
    pub closed spec fn pattern(self) -> Seq<char> {
        self.pattern@
    }
}

/// Relies on `regex::Regex::new`: it returns `Ok` exactly when the pattern
/// parses (and stays under the default size limit), and the compiled value's
/// behaviour depends on the pattern alone.
#[verifier::external_body]
pub fn compile_pattern(pattern: &str) -> (r: Option<CompiledPattern>)
    ensures
        r is Some <==> regex_compiles(pattern@),
        r matches Some(p) ==> p.pattern() == pattern@,
{
    match regex::Regex::new(pattern) {
        Ok(regex) => Some(CompiledPattern { regex, pattern: pattern.to_owned() }),
        Err(_) => None,
    }
}

/// Relies on `regex::escape`: the returned pattern stands for the literal
/// `text`, with every meta character escaped; a function of the text alone.
#[verifier::external_body]
pub fn escape_literal(text: &str) -> (r: String)
    ensures
        r@ == escaped(text@),
{
    regex::escape(text)
}

/// Relies on `regex::Regex::is_match`: whether the compiled pattern matches
/// anywhere in `text`, a deterministic function of pattern and text.
#[verifier::external_body]
pub fn pattern_matches(p: &CompiledPattern, text: &str) -> (r: bool)
    ensures
        r == regex_accepts(p.pattern(), text@),
{
    p.regex.is_match(text)
}

} // verus!
