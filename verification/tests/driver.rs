use bt_parser::errors::ErrorKind;
use bt_parser::parsing::any_line::any_line;
use bt_parser::parsing::comment::comment;
use bt_parser::parsing::comment_line::comment_line;
use bt_parser::parsing::non_comment_line::non_comment_line;
use bt_parser::parsing::parse_bt;
use bt_parser::types::nested::Nested;

fn drv_leaf(s: &str) -> Nested {
    Nested::Text(s.to_string())
}

#[test]
fn test_comment_line1() {
    let input = "// This is a comment\n";
    let result = comment_line(input);
    assert_eq!(result, Some(("\n", ("//", "This is a comment"))));
}

#[test]
fn test_comment_line2() {
    let input = "// This is a comment";
    let result = comment_line(input);
    assert_eq!(result, Some(("", ("//", "This is a comment"))));
}

#[test]
fn test_comment_line3() {
    let input = "//This is a comment\n typedef struct {\n";
    let result = comment_line(input);
    assert_eq!(result, Some(("\n typedef struct {\n", ("//", "This is a comment"))));
}

#[test]
fn test_parse_comment_line() {
    assert_eq!(
        comment("// This is a comment_line\n"),
        Some(("", " This is a comment_line"))
    );
    assert_eq!(
        comment("//Another comment_line"),
        Some(("", "Another comment_line"))
    );
}

#[test]
fn comment_keeps_raw_text_and_consumes_newline() {
    assert_eq!(comment("// hello\nnext"), Some(("next", " hello")));
    assert_eq!(comment("//x"), Some(("", "x")));
    assert!(comment("x //").is_none());
}

#[test]
fn non_comment_line_consumes_one_line() {
    assert_eq!(non_comment_line("abc\ndef"), Some(("def", "abc\n")));
    assert_eq!(non_comment_line("abc"), Some(("", "abc")));
    assert!(non_comment_line("").is_none());
}

#[test]
fn classifier_fails_only_on_empty_input() {
    let err = any_line("").unwrap_err();
    assert_eq!(err.kind, ErrorKind::NoAlternativeMatched);
    assert!(any_line("@@@").is_ok());
}

#[test]
fn scenario_comment_grouping() {
    let (rest, (comments, typedefs)) = parse_bt("// hello\n// world\nint x;\n");
    assert_eq!(rest, "");
    assert_eq!(comments, vec![" hello\n world".to_string()]);
    assert!(typedefs.is_empty());
}

#[test]
fn scenario_aliased_typedef() {
    let (rest, (comments, typedefs)) = parse_bt("typedef struct Foo {\n} Bar <size=0x10>;\n");
    assert_eq!(rest, "");
    assert!(comments.is_empty());
    assert_eq!(typedefs.len(), 1);
    assert_eq!(
        typedefs[0],
        Nested::List(vec![
            drv_leaf("typedef"),
            drv_leaf("struct"),
            Nested::List(vec![
                Nested::List(vec![drv_leaf("Foo"), drv_leaf("Bar")]),
                drv_leaf(""),
                Nested::List(vec![drv_leaf("size="), drv_leaf("0x10")]),
            ]),
        ])
    );
}

#[test]
fn driver_stops_at_offset_zero_when_nothing_matches() {
    let (rest, (comments, typedefs)) = parse_bt("");
    assert_eq!(rest, "");
    assert!(comments.is_empty());
    assert!(typedefs.is_empty());
}

#[test]
fn driver_discards_unrecognised_lines_and_keeps_order() {
    let input = "\
// header
junk that matches nothing in particular
int field;
if (x != 0) { int y; }
typedef struct {
} Entry <size=0x4>;
// trailer
";
    let (rest, (comments, typedefs)) = parse_bt(input);
    assert_eq!(rest, "");
    assert_eq!(comments, vec![" header".to_string(), " trailer".to_string()]);
    assert_eq!(typedefs.len(), 1);
    assert_eq!(
        typedefs[0],
        Nested::List(vec![
            drv_leaf("typedef"),
            drv_leaf("struct"),
            Nested::List(vec![
                drv_leaf("Entry"),
                drv_leaf(""),
                Nested::List(vec![drv_leaf("size="), drv_leaf("0x4")]),
            ]),
        ])
    );
}

#[test]
fn indented_comment_lines_are_grouped_not_dropped() {
    // Leading spaces or tabs before `//` do not turn a comment line into an
    // opaque line; the text after `//` is kept verbatim.
    let (rest, (comments, typedefs)) = parse_bt("  // hello\n\t// world\nint x;\n");
    assert_eq!(rest, "");
    assert_eq!(comments, vec![" hello\n world".to_string()]);
    assert!(typedefs.is_empty());
}

#[test]
fn comment_tolerates_leading_horizontal_whitespace() {
    assert_eq!(comment("  // x\nrest"), Some(("rest", " x")));
    assert_eq!(comment("\t//y"), Some(("", "y")));
    // A line feed is not skipped: a blank line is no comment.
    assert!(comment("\n// x").is_none());
}

#[test]
fn comment_consumes_crlf_and_drops_carriage_return() {
    assert_eq!(comment("// a\r\n// b"), Some(("// b", " a")));
    assert_eq!(comment("// a\r"), Some(("", " a")));
    let (rest, (comments, _)) = parse_bt("// a\r\n// b\r\nint x;\r\n");
    assert_eq!(rest, "");
    assert_eq!(comments, vec![" a\n b".to_string()]);
}

#[test]
fn comment_line_drops_carriage_return_from_text() {
    assert_eq!(comment_line("// hi\r\n"), Some(("\n", ("//", "hi"))));
}

#[test]
fn blank_line_separates_comment_blocks() {
    let (rest, (comments, _)) = parse_bt("// a\n\n// b\n");
    assert_eq!(rest, "");
    assert_eq!(comments, vec![" a".to_string(), " b".to_string()]);
    // A line of whitespace alone breaks a run too.
    let (_, (comments, _)) = parse_bt("// a\n  \n// b\n");
    assert_eq!(comments, vec![" a".to_string(), " b".to_string()]);
}

#[test]
fn nested_display_form_joins_with_spaces() {
    let tree = Nested::List(vec![
        drv_leaf("typedef"),
        drv_leaf("struct"),
        Nested::List(vec![drv_leaf("Foo"), drv_leaf("Bar")]),
    ]);
    assert_eq!(tree.to_text(), "typedef struct Foo Bar");
    assert_eq!(drv_leaf("x").to_text(), "x");
    assert_eq!(Nested::List(vec![]).to_text(), "");
}

#[test]
fn nested_equality_is_structural() {
    let a = Nested::List(vec![drv_leaf("x"), Nested::List(vec![drv_leaf("y")])]);
    let b = Nested::List(vec![drv_leaf("x"), Nested::List(vec![drv_leaf("y")])]);
    let c = Nested::List(vec![drv_leaf("x"), Nested::List(vec![drv_leaf("z")])]);
    assert_eq!(a, b);
    assert_ne!(a, c);
    assert_ne!(drv_leaf("x"), Nested::List(vec![drv_leaf("x")]));
}
