use route_pattern::hand_parser::{parse, ParseError, Token};

#[test]
fn empty_tokens() {
    let toks = parse("", '<', '>').unwrap();
    assert!(toks.is_empty());
}

#[test]
fn no_regex() {
    let toks = parse("abc", '<', '>').unwrap();
    assert_eq!(toks.len(), 1);
    assert!(matches!(&toks[0], Token::String(s) if s == "abc"));
}

#[test]
fn no_string() {
    let toks = parse("<abc.+>", '<', '>').unwrap();
    assert_eq!(toks.len(), 1);
    assert!(matches!(&toks[0], Token::Regex(s) if s == "abc.+"));
}

#[test]
fn it_works() {
    let toks = parse("/articles/<.+>/update", '<', '>').unwrap();
    assert_eq!(toks.len(), 3);
    assert!(matches!(&toks[0], Token::String(s) if s == "/articles/"));
    assert!(matches!(&toks[1], Token::Regex(s) if s == ".+"));
    assert!(matches!(&toks[2], Token::String(s) if s == "/update"));
}

#[test]
fn nested_pattern_first_level_only() {
    let toks = parse("/articles/<a<.+>b>/update", '<', '>').unwrap();
    assert_eq!(toks.len(), 3);
    assert!(matches!(&toks[0], Token::String(s) if s == "/articles/"));
    assert!(matches!(&toks[1], Token::Regex(s) if s == "a<.+>b"));
    assert!(matches!(&toks[2], Token::String(s) if s == "/update"));
}

#[test]
fn hand_parser_bad_parens_balance() {
    let tokens = parse("/articles/<a<.+b>/update", '<', '>');
    assert_eq!(tokens.unwrap_err(), ParseError::DelimiterMissing);
}

#[test]
fn bad_parens_balance_2() {
    let tokens = parse("/articles/<a.+b/update", '<', '>');
    assert_eq!(tokens.unwrap_err(), ParseError::DelimiterMissing);
}

#[test]
fn multiple_groups() {
    let toks = parse("/ar<\\S+>/<.+>/update", '<', '>').unwrap();
    assert_eq!(toks.len(), 5);
    assert!(matches!(&toks[0], Token::String(s) if s == "/ar"));
    assert!(matches!(&toks[1], Token::Regex(s) if s == "\\S+"));
    assert!(matches!(&toks[2], Token::String(s) if s == "/"));
    assert!(matches!(&toks[3], Token::Regex(s) if s == ".+"));
    assert!(matches!(&toks[4], Token::String(s) if s == "/update"));
}

#[test]
fn nested_same_delimiter_preserved() {
    let toks = parse("a<b<c>d>e", '<', '>').unwrap();
    assert_eq!(toks.len(), 3);
    assert!(matches!(&toks[0], Token::String(s) if s == "a"));
    assert!(matches!(&toks[1], Token::Regex(s) if s == "b<c>d"));
    assert!(matches!(&toks[2], Token::String(s) if s == "e"));
}

#[test]
fn empty_fragment() {
    let toks = parse("foobar<>", '<', '>').unwrap();
    assert_eq!(toks.len(), 2);
    assert!(matches!(&toks[0], Token::String(s) if s == "foobar"));
    assert!(matches!(&toks[1], Token::Regex(s) if s.is_empty()));
}

#[test]
fn unbalanced_openers_fail() {
    assert_eq!(parse("<a<.+b>", '<', '>').unwrap_err(), ParseError::DelimiterMissing);
    assert_eq!(parse("<a.+b", '<', '>').unwrap_err(), ParseError::DelimiterMissing);
}

#[test]
fn equal_delimiters_never_close() {
    assert_eq!(parse("a<b<c", '<', '<').unwrap_err(), ParseError::DelimiterMissing);
    let toks = parse("plain", '<', '<').unwrap();
    assert_eq!(toks.len(), 1);
    assert!(matches!(&toks[0], Token::String(s) if s == "plain"));
}
