//! Compile route patterns into anchored regular expressions.
//!
//! A route pattern is literal text interleaved with regex fragments enclosed
//! in a caller-chosen pair of delimiter characters.  The pattern is
//! tokenized, every literal segment is escaped so it matches only itself,
//! every fragment is passed through verbatim, and the concatenation is
//! anchored at both ends and handed to the regex engine.

use vstd::prelude::*;

pub mod engine;
pub mod escape;
pub mod hand_parser;

verus! {

use crate::engine::{compiled_src, regex_accepts, regex_compiles};
use crate::escape::escape_seq;
use crate::hand_parser::{spec_tokenize, token_views, TokSpec, Token};

/// Errors from compiling a route pattern: the tokenizer found no closing
/// delimiter, or the regex engine rejected an embedded fragment.
#[derive(Debug, PartialEq, Eq)]
pub enum ParseError {
    ParseError(String),
    BadRegex(String),
}

/// Regex source for one token: a literal escaped, a fragment verbatim.
pub open spec fn token_src(t: TokSpec) -> Seq<char> {
    match t {
        TokSpec::Literal(s) => escape_seq(s),
        TokSpec::Fragment(s) => s,
    }
}

/// Concatenated regex source of a token sequence, in token order.
pub open spec fn body_src(ts: Seq<TokSpec>) -> Seq<char>
    decreases ts.len(),
{
    if ts.len() == 0 {
        Seq::empty()
    } else {
        token_src(ts[0]) + body_src(ts.drop_first())
    }
}

/// The assembled regex source: the tokens' sources wrapped in start-of-string
/// and end-of-string anchors, so the result matches whole strings only.
pub open spec fn anchored_src(ts: Seq<TokSpec>) -> Seq<char> {
    seq!['^'] + body_src(ts) + seq!['$']
}

/// The anchored regex source a pattern compiles to, when tokenization
/// succeeds.
pub open spec fn pattern_src(pattern: Seq<char>, open: char, close: char) -> Option<Seq<char>> {
    match spec_tokenize(pattern, open, close) {
        Some(ts) => Some(anchored_src(ts)),
        None => None,
    }
}

proof fn lemma_body_src_push(a: Seq<TokSpec>, x: TokSpec)
    ensures
        body_src(a.push(x)) == body_src(a) + token_src(x),
    decreases a.len(),
{
    if a.len() == 0 {
        let p = a.push(x);
        assert(p[0] == x);
        assert(p.drop_first() =~= Seq::<TokSpec>::empty());
        assert(body_src(p.drop_first()) == Seq::<char>::empty());
        assert(token_src(x) + Seq::<char>::empty() =~= token_src(x));
        assert(body_src(a) + token_src(x) =~= token_src(x));
    } else {
        assert(a.push(x)[0] == a[0]);
        assert(a.push(x).drop_first() =~= a.drop_first().push(x));
        lemma_body_src_push(a.drop_first(), x);
        assert(token_src(a[0]) + (body_src(a.drop_first()) + token_src(x)) =~= (token_src(a[0])
            + body_src(a.drop_first())) + token_src(x));
    }
}

/// The message a missing closing delimiter reports.
fn delimiter_missing_message() -> (m: String)
    ensures
        m@ == "No ending delimiter found"@,
{
    "No ending delimiter found".to_owned()
}

/// Compile a route pattern into a regex matcher.
///
/// When tokenization succeeds, the result is `Ok` exactly when the engine
/// accepts the assembled anchored source, and the matcher is built from
/// exactly that source; when an embedded fragment is rejected the error is
/// `BadRegex` with the engine's message.  When tokenization fails the error
/// is `ParseError` with the tokenizer's message.
pub fn compile_impl(pattern: &str, dstart: char, dend: char) -> (res: Result<
    regex::Regex,
    ParseError,
>)
    ensures
        match pattern_src(pattern@, dstart, dend) {
            Some(src) => {
                &&& (res is Ok <==> regex_compiles(src))
                &&& (res matches Ok(re) ==> compiled_src(re) == src)
                &&& (res matches Err(e) ==> e matches ParseError::BadRegex(_))
            },
            None => res matches Err(e) && (e matches ParseError::ParseError(m) && m@
                == "No ending delimiter found"@),
        },
{
    let parsed = match hand_parser::parse(pattern, dstart, dend) {
        Ok(v) => v,
        Err(_) => {
            return Err(ParseError::ParseError(delimiter_missing_message()));
        },
    };
    let ghost toks = token_views(parsed@);
    let mut out: Vec<char> = Vec::new();
    out.push('^');
    let n = parsed.len();
    let mut k: usize = 0;
    while k < n
        invariant
            k <= n,
            n == parsed@.len(),
            toks == token_views(parsed@),
            toks.len() == n,
            out@ == seq!['^'] + body_src(toks.subrange(0, k as int)),
        decreases n - k,
    {
        let ghost prefix = toks.subrange(0, k as int);
        match &parsed[k] {
            Token::String(s) => {
                escape::push_escaped(&mut out, s.as_str());
            },
            Token::Regex(r) => {
                escape::push_plain(&mut out, r.as_str());
            },
        }
        proof {
            assert(toks.subrange(0, k + 1) =~= prefix.push(toks[k as int]));
            lemma_body_src_push(prefix, toks[k as int]);
            assert(out@ =~= seq!['^'] + body_src(toks.subrange(0, k + 1)));
        }
        k = k + 1;
    }
    out.push('$');
    proof {
        assert(toks.subrange(0, n as int) =~= toks);
        assert(out@ =~= anchored_src(toks));
    }
    match engine::regex_new(&out) {
        Ok(re) => Ok(re),
        Err(e) => {
            let msg = engine::regex_error_message(&e);
            Err(ParseError::BadRegex(msg))
        },
    }
}

/// Compile a route pattern.  Get back a regex matcher you can use as you
/// see fit; see [`compile_impl`] for the exact contract.
pub fn compile(pattern: &str, dstart: char, dend: char) -> (res: Result<regex::Regex, ParseError>)
    ensures
        match pattern_src(pattern@, dstart, dend) {
            Some(src) => {
                &&& (res is Ok <==> regex_compiles(src))
                &&& (res matches Ok(re) ==> compiled_src(re) == src)
                &&& (res matches Err(e) ==> e matches ParseError::BadRegex(_))
            },
            None => res matches Err(e) && (e matches ParseError::ParseError(m) && m@
                == "No ending delimiter found"@),
        },
{
    compile_impl(pattern, dstart, dend)
}

/// Compile a route pattern and test `text` against it in one call.
///
/// When the pattern compiles, the answer is exactly whether the anchored
/// source matches `text`; the errors are those of [`compile`].
pub fn is_match(pattern: &str, dstart: char, dend: char, text: &str) -> (res: Result<
    bool,
    ParseError,
>)
    ensures
        match pattern_src(pattern@, dstart, dend) {
            Some(src) => {
                &&& (regex_compiles(src) ==> (res matches Ok(b) && b == regex_accepts(
                    src,
                    text@,
                )))
                &&& (!regex_compiles(src) ==> (res matches Err(e) && e
                    matches ParseError::BadRegex(_)))
            },
            None => res matches Err(e) && (e matches ParseError::ParseError(m) && m@
                == "No ending delimiter found"@),
        },
{
    let re = match compile(pattern, dstart, dend) {
        Ok(re) => re,
        Err(e) => {
            return Err(e);
        },
    };
    Ok(engine::regex_is_match(&re, text))
}

/// Law: the empty pattern tokenizes to no tokens and compiles to the
/// anchored empty source, the regex that matches only the empty string.
pub proof fn lemma_empty_pattern_src(open: char, close: char)
    ensures
        pattern_src(Seq::<char>::empty(), open, close) == Some("^$"@),
{
    reveal_strlit("^$");
    hand_parser::lemma_tokenize_empty(open, close);
    assert(anchored_src(Seq::<TokSpec>::empty()) =~= "^$"@);
}

} // verus!
