//! Tokenizer for route patterns.
//!
//! A single pass over the pattern's characters splits it into literal
//! segments and delimiter-enclosed regex fragments.  Nested occurrences of
//! the delimiter characters inside a fragment are balanced with an integer
//! depth counter, so only the outermost delimiter pair is stripped and
//! everything between it is kept verbatim.

use vstd::prelude::*;
use vstd::string::StrSliceExecFns;

verus! {

/// Mathematical form of a token: the character sequence of a literal
/// segment or of a regex fragment.
pub enum TokSpec {
    Literal(Seq<char>),
    Fragment(Seq<char>),
}

/// A token of the route-pattern language.
#[derive(Debug)]
pub enum Token {
    /// A run of characters to be matched verbatim.
    String(String),
    /// A run of characters to be passed through as regex source.
    Regex(String),
}

impl View for Token {
    type V = TokSpec;

    open spec fn view(&self) -> TokSpec {
        match self {
            Token::String(s) => TokSpec::Literal(s@),
            Token::Regex(s) => TokSpec::Fragment(s@),
        }
    }
}

/// The one tokenizer error: an opened fragment with no matching closer
/// before the end of the pattern.
#[derive(Debug, PartialEq, Eq)]
pub enum ParseError {
    DelimiterMissing,
}

/// The first position at or after `i` that holds `open`, or the end of `s`.
pub open spec fn lit_end(s: Seq<char>, open: char, i: int) -> int
    decreases s.len() - i,
{
    if i < 0 || i >= s.len() {
        s.len() as int
    } else if s[i] == open {
        i
    } else {
        lit_end(s, open, i + 1)
    }
}

/// The position of the closer that brings the nesting depth to zero when
/// scanning `s` from `i` with the depth currently at `depth`, or `None` if
/// the input ends first.  The test for `open` comes first, so when `open`
/// and `close` are the same character the depth can only grow and no
/// fragment ever closes.
pub open spec fn close_pos(s: Seq<char>, open: char, close: char, i: int, depth: int) -> Option<
    int,
>
    decreases s.len() - i,
{
    if i < 0 || i >= s.len() {
        None
    } else if s[i] == open {
        close_pos(s, open, close, i + 1, depth + 1)
    } else if s[i] == close {
        if depth == 1 {
            Some(i)
        } else {
            close_pos(s, open, close, i + 1, depth - 1)
        }
    } else {
        close_pos(s, open, close, i + 1, depth)
    }
}

/// The token sequence produced from position `i` of `s` onward, or `None`
/// if a fragment opened there is never closed.  At a delimiter the fragment
/// between the opener and its balancing closer is emitted verbatim; anywhere
/// else the literal run up to the next opener is emitted.
pub open spec fn tokens_from(s: Seq<char>, open: char, close: char, i: int) -> Option<
    Seq<TokSpec>,
>
    decreases s.len() - i,
{
    if i < 0 || i >= s.len() {
        Some(Seq::empty())
    } else if s[i] == open {
        match close_pos(s, open, close, i + 1, 1) {
            None => None,
            Some(j) => if i < j < s.len() {
                match tokens_from(s, open, close, j + 1) {
                    None => None,
                    Some(rest) => Some(seq![TokSpec::Fragment(s.subrange(i + 1, j))] + rest),
                }
            } else {
                None
            },
        }
    } else {
        let e = lit_end(s, open, i);
        if i < e <= s.len() {
            match tokens_from(s, open, close, e) {
                None => None,
                Some(rest) => Some(seq![TokSpec::Literal(s.subrange(i, e))] + rest),
            }
        } else {
            None
        }
    }
}

/// The tokenization of a whole pattern.
pub open spec fn spec_tokenize(s: Seq<char>, open: char, close: char) -> Option<Seq<TokSpec>> {
    tokens_from(s, open, close, 0)
}

/// The views of a sequence of tokens.
pub open spec fn token_views(v: Seq<Token>) -> Seq<TokSpec> {
    v.map_values(|t: Token| t@)
}

/// Tokens already emitted, followed by whatever the rest of the scan yields.
spec fn with_prefix(prefix: Seq<TokSpec>, rest: Option<Seq<TokSpec>>) -> Option<Seq<TokSpec>> {
    match rest {
        None => None,
        Some(ts) => Some(prefix + ts),
    }
}

proof fn lemma_lit_end_bounds(s: Seq<char>, open: char, i: int)
    requires
        0 <= i <= s.len(),
    ensures
        i <= lit_end(s, open, i) <= s.len(),
        lit_end(s, open, i) < s.len() ==> s[lit_end(s, open, i)] == open,
    decreases s.len() - i,
{
    if i < s.len() && s[i] != open {
        lemma_lit_end_bounds(s, open, i + 1);
    }
}

/// Scan a literal segment: everything from `start` up to the next `until`
/// character, or to the end of the input.
fn expr_str(s: &str, start: usize, until: char) -> (res: (Token, usize))
    requires
        start < s@.len(),
        s@[start as int] != until,
    ensures
        res.1 as int == lit_end(s@, until, start as int),
        start < res.1 <= s@.len(),
        res.0@ == TokSpec::Literal(s@.subrange(start as int, res.1 as int)),
{
    let n = s.unicode_len();
    let mut i: usize = start;
    while i < n && s.get_char(i) != until
        invariant
            start <= i <= n,
            n == s@.len(),
            lit_end(s@, until, start as int) == lit_end(s@, until, i as int),
        decreases n - i,
    {
        i = i + 1;
    }
    proof {
        lemma_lit_end_bounds(s@, until, start as int + 1);
    }
    (Token::String(s.substring_char(start, i).to_owned()), i)
}

/// Scan a regex fragment: enter at the opener at `start`, keep a depth
/// counter across nested delimiters, and stop at the closer that balances
/// the outer opener; fail if the input ends while the fragment is open.
fn expr_regex(s: &str, start: usize, dstart: char, dend: char) -> (res: Result<
    (Token, usize),
    ParseError,
>)
    requires
        start < s@.len(),
        s@[start as int] == dstart,
    ensures
        match close_pos(s@, dstart, dend, start as int + 1, 1) {
            Some(j) => res matches Ok(p) && p.0@ == TokSpec::Fragment(
                s@.subrange(start as int + 1, j),
            ) && p.1 as int == j + 1 && start < j < s@.len(),
            None => res == Err::<(Token, usize), ParseError>(ParseError::DelimiterMissing),
        },
{
    let n = s.unicode_len();
    let mut i: usize = start + 1;
    let mut depth: usize = 1;
    while i < n
        invariant
            start + 1 <= i <= n,
            n == s@.len(),
            1 <= depth <= i - start,
            close_pos(s@, dstart, dend, start as int + 1, 1) == close_pos(
                s@,
                dstart,
                dend,
                i as int,
                depth as int,
            ),
        decreases n - i,
    {
        let c = s.get_char(i);
        if c == dstart {
            depth = depth + 1;
        } else if c == dend {
            depth = depth - 1;
            if depth == 0 {
                let tok = Token::Regex(s.substring_char(start + 1, i).to_owned());
                return Ok((tok, i + 1));
            }
        }
        i = i + 1;
    }
    Err(ParseError::DelimiterMissing)
}

fn parse_impl(pattern: &str, dstart: char, dend: char) -> (res: Result<Vec<Token>, ParseError>)
    ensures
        match spec_tokenize(pattern@, dstart, dend) {
            Some(ts) => res matches Ok(v) && token_views(v@) == ts,
            None => res == Err::<Vec<Token>, ParseError>(ParseError::DelimiterMissing),
        },
{
    let n = pattern.unicode_len();
    let mut tokens: Vec<Token> = Vec::new();
    let mut i: usize = 0;
    while i < n
        invariant
            i <= n,
            n == pattern@.len(),
            spec_tokenize(pattern@, dstart, dend) == with_prefix(
                token_views(tokens@),
                tokens_from(pattern@, dstart, dend, i as int),
            ),
        decreases n - i,
    {
        let ghost prev = tokens@;
        let c = pattern.get_char(i);
        if c == dstart {
            match expr_regex(pattern, i, dstart, dend) {
                Ok((tok, next)) => {
                    proof {
                        lemma_views_push(prev, tok);
                        lemma_prefix_assoc(
                            token_views(prev),
                            tok@,
                            tokens_from(pattern@, dstart, dend, next as int),
                        );
                    }
                    tokens.push(tok);
                    i = next;
                }
                Err(e) => {
                    return Err(e);
                }
            }
        } else {
            let (tok, next) = expr_str(pattern, i, dstart);
            proof {
                lemma_views_push(prev, tok);
                lemma_prefix_assoc(
                    token_views(prev),
                    tok@,
                    tokens_from(pattern@, dstart, dend, next as int),
                );
            }
            tokens.push(tok);
            i = next;
        }
    }
    proof {
        assert(token_views(tokens@) + Seq::<TokSpec>::empty() =~= token_views(tokens@));
    }
    Ok(tokens)
}

proof fn lemma_views_push(v: Seq<Token>, t: Token)
    ensures
        token_views(v.push(t)) == token_views(v).push(t@),
{
    assert(token_views(v.push(t)) =~= token_views(v).push(t@));
}

proof fn lemma_prefix_assoc(prefix: Seq<TokSpec>, t: TokSpec, rest: Option<Seq<TokSpec>>)
    ensures
        with_prefix(prefix, with_prefix(seq![t], rest)) == with_prefix(prefix.push(t), rest),
{
    match rest {
        None => {
        }
        Some(ts) => {
            assert(prefix + (seq![t] + ts) =~= prefix.push(t) + ts);
        }
    }
}

/// Tokenize a route pattern.
///
/// The result is exactly the token sequence of the mathematical scan
/// [`spec_tokenize`]; the scan fails, with [`ParseError::DelimiterMissing`],
/// exactly when a fragment is opened and never closed.
pub fn parse(pattern: &str, dstart: char, dend: char) -> (res: Result<Vec<Token>, ParseError>)
    ensures
        match spec_tokenize(pattern@, dstart, dend) {
            Some(ts) => res matches Ok(v) && token_views(v@) == ts,
            None => res == Err::<Vec<Token>, ParseError>(ParseError::DelimiterMissing),
        },
{
    if pattern.is_empty() {
        let empty: Vec<Token> = Vec::new();
        proof {
            assert(token_views(empty@) =~= Seq::<TokSpec>::empty());
        }
        return Ok(empty);
    }
    parse_impl(pattern, dstart, dend)
}

/// Law: tokenizing the empty pattern yields the empty token sequence.
pub proof fn lemma_tokenize_empty(open: char, close: char)
    ensures
        spec_tokenize(Seq::<char>::empty(), open, close) == Some(Seq::<TokSpec>::empty()),
{
}

proof fn lemma_lit_end_no_open(s: Seq<char>, open: char, i: int)
    requires
        0 <= i <= s.len(),
        forall|k: int| i <= k < s.len() ==> s[k] != open,
    ensures
        lit_end(s, open, i) == s.len(),
    decreases s.len() - i,
{
    if i < s.len() {
        lemma_lit_end_no_open(s, open, i + 1);
    }
}

/// Law: a nonempty pattern that holds no `open` character tokenizes to
/// exactly one literal token carrying the whole pattern.
pub proof fn lemma_no_open_single_literal(s: Seq<char>, open: char, close: char)
    requires
        s.len() > 0,
        forall|k: int| 0 <= k < s.len() ==> s[k] != open,
    ensures
        spec_tokenize(s, open, close) == Some(seq![TokSpec::Literal(s)]),
{
    lemma_lit_end_no_open(s, open, 0);
    assert(s.subrange(0, s.len() as int) =~= s);
    assert(tokens_from(s, open, close, s.len() as int) == Some(Seq::<TokSpec>::empty()));
    assert(seq![TokSpec::Literal(s)] + Seq::<TokSpec>::empty() =~= seq![TokSpec::Literal(s)]);
}

proof fn lemma_close_pos_skip_plain(
    s: Seq<char>,
    open: char,
    close: char,
    i: int,
    j: int,
    depth: int,
)
    requires
        0 <= i <= j <= s.len(),
        forall|k: int| i <= k < j ==> s[k] != open && s[k] != close,
    ensures
        close_pos(s, open, close, i, depth) == close_pos(s, open, close, j, depth),
    decreases j - i,
{
    if i < j {
        lemma_close_pos_skip_plain(s, open, close, i + 1, j, depth);
    }
}

/// Law: a pattern that is exactly one delimited fragment -- `open`, then a
/// text free of both delimiter characters, then `close`, the two delimiters
/// distinct -- tokenizes to exactly one fragment token carrying that text.
pub proof fn lemma_single_fragment(r: Seq<char>, open: char, close: char)
    requires
        open != close,
        forall|k: int| 0 <= k < r.len() ==> r[k] != open && r[k] != close,
    ensures
        spec_tokenize(seq![open] + r + seq![close], open, close) == Some(
            seq![TokSpec::Fragment(r)],
        ),
{
    let s = seq![open] + r + seq![close];
    let j = r.len() as int + 1;
    assert(s.len() == r.len() + 2);
    assert(s[0] == open);
    assert(forall|k: int| 1 <= k < j ==> s[k] == r[k - 1]);
    lemma_close_pos_skip_plain(s, open, close, 1, j, 1);
    assert(s[j] == close);
    assert(close_pos(s, open, close, j, 1) == Some(j));
    assert(s.subrange(1, j) =~= r);
    assert(tokens_from(s, open, close, j + 1) == Some(Seq::<TokSpec>::empty()));
    assert(seq![TokSpec::Fragment(r)] + Seq::<TokSpec>::empty() =~= seq![TokSpec::Fragment(r)]);
}

} // verus!
