use route_pattern::{compile, compile_impl, is_match, ParseError};

#[test]
fn match_glob() {
    assert_eq!(is_match("foo/<.*>", '<', '>', "foo/bar").unwrap(), true);
}

#[test]
fn match_nested() {
    assert_eq!(is_match("foo/{a{1,4}}/", '{', '}', "foo/aaa/").unwrap(), true);
}

#[test]
fn dont_match_nested() {
    assert_eq!(is_match("foo/{a{1,4}}/", '{', '}', "foo/aaaaaaaa/").unwrap(), false);
}

#[test]
fn match_multiple() {
    assert_eq!(is_match("foo/{b{1,4}}/{[0-9]+}", '{', '}', "foo/bbb/123").unwrap(), true);
}

#[test]
fn empty_pattern_matches_only_empty() {
    assert_eq!(is_match("", '<', '>', "").unwrap(), true);
    assert_eq!(is_match("", '<', '>', "x").unwrap(), false);
}

#[test]
fn literal_metachar_is_escaped() {
    assert_eq!(is_match("a.b", '<', '>', "a.b").unwrap(), true);
    assert_eq!(is_match("a.b", '<', '>', "axb").unwrap(), false);
}

#[test]
fn anchored_whole_string() {
    assert_eq!(is_match("foo", '<', '>', "foo").unwrap(), true);
    assert_eq!(is_match("foo", '<', '>', "xfoo").unwrap(), false);
    assert_eq!(is_match("foo", '<', '>', "foox").unwrap(), false);
}

#[test]
fn compiled_handle_is_usable() {
    let re = compile("foo/<.*>", '<', '>').unwrap();
    assert!(re.is_match("foo/bar"));
    assert!(!re.is_match("bar/foo"));
}

#[test]
fn compile_impl_builds_anchored_regex() {
    let re = compile_impl("/articles/<[0-9]+>/edit", '<', '>').unwrap();
    assert_eq!(re.as_str(), "^/articles/[0-9]+/edit$");
    assert!(re.is_match("/articles/42/edit"));
    assert!(!re.is_match("/articles/abc/edit"));
}

#[test]
fn missing_delimiter_error() {
    let err = is_match("foo/<bar", '<', '>', "x").unwrap_err();
    assert_eq!(err, ParseError::ParseError("No ending delimiter found".to_string()));
}

#[test]
fn bad_fragment_regex_error() {
    let err = is_match("<(>", '<', '>', "x").unwrap_err();
    match err {
        ParseError::BadRegex(msg) => assert!(!msg.is_empty()),
        other => panic!("unexpected error: {:?}", other),
    }
}
