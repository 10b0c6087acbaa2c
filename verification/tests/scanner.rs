use bt_parser::errors::ErrorKind;
use bt_parser::shared::take_until_unbalanced::take_until_unbalanced;

#[test]
fn test_parse_until_unbalanced_parens() {
    assert!(take_until_unbalanced('<', '>', "abc").is_err());
}

#[test]
fn test_take_until_unmatched1() {
    assert!(take_until_unbalanced('(', ')', "abc)").is_err());
}

#[test]
fn test_take_until_unmatched2() {
    assert_eq!(take_until_unbalanced('(', ')', "(abc)").unwrap(), ("", "abc"));
}

#[test]
fn test_take_until_unmatched3() {
    assert!(take_until_unbalanced('(', ')', "{abc)").is_err());
}

#[test]
fn test_take_until_unmatched4() {
    assert!(take_until_unbalanced('(', ')', "def{abc)").is_err());
}

#[test]
fn scanner_strips_outer_pair_of_nested_region() {
    let (rest, contents) =
        take_until_unbalanced('(', ')', "((a) && (b (c))) tail").unwrap();
    assert_eq!(contents, "(a) && (b (c))");
    assert_eq!(rest, "tail");
}

#[test]
fn scanner_consumes_one_statement_terminator() {
    let (rest, contents) = take_until_unbalanced('{', '}', "{ body } next").unwrap();
    assert_eq!(contents, "body");
    assert_eq!(rest, "next");

    let (rest, contents) = take_until_unbalanced('{', '}', "{ body }; next").unwrap();
    assert_eq!(contents, "body");
    assert_eq!(rest, "next");

    let (rest, contents) = take_until_unbalanced('<', '>', "<size=0x10>;").unwrap();
    assert_eq!(contents, "size=0x10");
    assert_eq!(rest, "");
}

#[test]
fn scanner_reports_unterminated_delimiter() {
    let err = take_until_unbalanced('{', '}', "{ open { nested }").unwrap_err();
    assert_eq!(err.kind, ErrorKind::UnterminatedDelimiter);
    assert_eq!(err.input, "{ open { nested }");
}

#[test]
fn scanner_reports_unmatched_closing_delimiter() {
    let err = take_until_unbalanced('{', '}', "}").unwrap_err();
    assert_eq!(err.kind, ErrorKind::UnmatchedClosingDelimiter);
}

#[test]
fn scanner_reports_malformed_prefix() {
    let err = take_until_unbalanced('<', '>', "x <a>").unwrap_err();
    assert_eq!(err.kind, ErrorKind::MalformedPrefix);
    // Leading whitespace counts as prefix text too.
    let err = take_until_unbalanced('<', '>', " <a>").unwrap_err();
    assert_eq!(err.kind, ErrorKind::MalformedPrefix);
    // Empty input never opens a region.
    assert!(take_until_unbalanced('<', '>', "").is_err());
}

#[test]
fn scanner_is_generic_over_the_delimiter_pair() {
    assert_eq!(take_until_unbalanced('(', ')', "(x)y").unwrap(), ("y", "x"));
    assert_eq!(take_until_unbalanced('{', '}', "{x}y").unwrap(), ("y", "x"));
    assert_eq!(take_until_unbalanced('<', '>', "<x>y").unwrap(), ("y", "x"));
}
