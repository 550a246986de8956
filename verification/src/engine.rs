//! The interface to the external regex engine.
//!
//! Everything in this module is trusted: the contracts state what the regex
//! crate's source and documentation show, and nothing here is verified.
//! The meaning of a compiled matcher is abstracted by [`compiled_src`]: the
//! source it was built from; what the engine does with a source is
//! abstracted by [`regex_compiles`] and [`regex_accepts`].

use vstd::prelude::*;

verus! {

#[verifier::external_type_specification]
#[verifier::external_body]
pub struct ExRegex(regex::Regex);

#[verifier::external_type_specification]
#[verifier::external_body]
pub struct ExRegexError(regex::Error);

/// The source text a compiled matcher was built from.
pub uninterp spec fn compiled_src(re: regex::Regex) -> Seq<char>;

/// Whether the engine accepts `src` as well-formed regex source.
pub uninterp spec fn regex_compiles(src: Seq<char>) -> bool;

/// Whether the pattern `src` matches somewhere in `text`.
pub uninterp spec fn regex_accepts(src: Seq<char>, text: Seq<char>) -> bool;

/// The diagnostic message of a regex compile error.
pub uninterp spec fn error_text(e: regex::Error) -> Seq<char>;

/// Relies on regex::Regex::new: compiling a source succeeds or fails
/// depending on that source alone, and success yields the matcher built
/// from exactly that source.
#[verifier::external_body]
pub(crate) fn regex_new(src: &Vec<char>) -> (res: Result<regex::Regex, regex::Error>)
    ensures
        res is Ok <==> regex_compiles(src@),
        res matches Ok(re) ==> compiled_src(re) == src@,
{
    let text: String = src.iter().collect();
    regex::Regex::new(&text)
}

/// Relies on regex::Regex::is_match: the answer is a function of the
/// compiled pattern's source and the haystack alone.
#[verifier::external_body]
pub(crate) fn regex_is_match(re: &regex::Regex, text: &str) -> (b: bool)
    ensures
        b == regex_accepts(compiled_src(*re), text@),
{
    re.is_match(text)
}

/// Relies on the Display implementation the regex crate gives its error
/// type: the message is a function of the error value alone.
#[verifier::external_body]
pub(crate) fn regex_error_message(e: &regex::Error) -> (msg: String)
    ensures
        msg@ == error_text(*e),
{
    e.to_string()
}

} // verus!
