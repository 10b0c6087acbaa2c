use bt_parser::errors::ErrorKind;
use bt_parser::parsing::conditional_line::conditional_line;
use bt_parser::parsing::parse_nested_parens::parse_nested_parens;
use bt_parser::types::nested::Nested;

fn cond_leaf(s: &str) -> Nested {
    Nested::Text(s.to_string())
}

#[test]
fn test_conditional_line1() {
    let input_if_else = r#"if ( (ItemID != 0) && ((ItemID & 0xf0000000) == 0)) {
          int32 unk;
          int32 unk2;
          int32 ash_of_war_ga_item_handle<format=hex>;
          byte unk4;
      }
      else if((ItemID != 0) && ((ItemID & 0xf0000000) == 0x10000000)) {
          int32 unk;
          int32 unk2;
      }"#;
    let expected_result = Nested::List(vec![
        cond_leaf("if"),
        cond_leaf("( (ItemID != 0) && ((ItemID & 0xf0000000) == 0))"),
    ]);

    let expected_rest = r#"{
          int32 unk;
          int32 unk2;
          int32 ash_of_war_ga_item_handle<format=hex>;
          byte unk4;
      }
      else if((ItemID != 0) && ((ItemID & 0xf0000000) == 0x10000000)) {
          int32 unk;
          int32 unk2;
      }"#;

    assert_eq!(
        conditional_line(input_if_else),
        Some((expected_rest, expected_result))
    );
}

#[test]
fn test_conditional_line2() {
    let input_if_else = r#"else if((ItemID != 0) && ((ItemID & 0xf0000000) == 0x10000000)) {
          int32 unk;
          int32 unk2;
      }"#;
    let expected_result = Nested::List(vec![
        cond_leaf("else if"),
        cond_leaf("((ItemID != 0) && ((ItemID & 0xf0000000) == 0x10000000))"),
    ]);
    let expected_rest = r#"{
          int32 unk;
          int32 unk2;
      }"#;
    let (rest, result) = conditional_line(input_if_else).unwrap();

    assert_eq!(rest, expected_rest);
    assert_eq!(result, expected_result);
}

#[test]
fn conditional_line_scenario_guard() {
    let input = "if ( (ItemID != 0) && ((ItemID & 0xf0000000) == 0)) { int32 unk; }";
    let (rest, guard) = conditional_line(input).unwrap();
    assert_eq!(
        guard,
        Nested::List(vec![
            cond_leaf("if"),
            cond_leaf("( (ItemID != 0) && ((ItemID & 0xf0000000) == 0))"),
        ])
    );
    assert_eq!(rest, "{ int32 unk; }");
}

#[test]
fn conditional_line_requires_paren() {
    assert!(conditional_line("iffy (x) {").is_none());
    assert!(conditional_line("if x {").is_none());
    assert!(conditional_line("while (x) {").is_none());
}

#[test]
fn test_parse_nested_parens1() {
    let input = r#"( (ItemID != 0) && ((ItemID & 0xf0000000) == 0) )"#;
    let expected_rest = r#""#;
    let expected_result = r#"( (ItemID != 0) && ((ItemID & 0xf0000000) == 0) )"#;

    let (rest, result) = parse_nested_parens(input).unwrap();

    assert_eq!(rest, expected_rest);
    assert_eq!(result, vec![expected_result]);
}

#[test]
fn test_parse_nested_parens2() {
    let input = r#"( ItemID != 0 )"#;
    let expected_rest = r#""#;
    let expected_result = r#"( ItemID != 0 )"#;

    let (rest, result) = parse_nested_parens(input).unwrap();

    assert_eq!(rest, expected_rest);
    assert_eq!(result, vec![expected_result]);
}

#[test]
fn test_parse_nested_parens3() {
    let input = r#"( (ItemID != 0) ) {
  }"#;
    let expected_rest = r#"{
  }"#;
    let expected_result = r#"( (ItemID != 0) )"#;

    let (rest, result) = parse_nested_parens(input).unwrap();

    assert_eq!(rest, expected_rest);
    assert_eq!(result, vec![expected_result]);
}

#[test]
fn test_parse_nested_parens4() {
    let input = r#"a()"#;
    let result = parse_nested_parens(input);
    assert!(
        result.is_err(),
        "Expected error due to characters before parenthesis: {:?}",
        result
    );
}

#[test]
fn test_parse_nested_parens5() {
    let input = r#"(a"#;
    let result = parse_nested_parens(input);
    assert!(
        result.is_err(),
        "Expected error due to unterminated parenthesis: {:?}",
        result
    );
}

#[test]
fn test_parse_nested_parens6() {
    let input = r#"a)"#;
    let result = parse_nested_parens(input);
    assert!(
        result.is_err(),
        "Expected error due to unmatched parenthesis: {:?}",
        result
    );
}

#[test]
fn test_parse_nested_parens7() {
    let input = r#"a"#;
    let result = parse_nested_parens(input);
    assert!(
        result.is_err(),
        "Expected error due to missing parenthesis: {:?}",
        result
    );
}

#[test]
fn parse_nested_parens_collects_each_clause() {
    let (rest, regions) = parse_nested_parens("(a != 0) && (b == 1)").unwrap();
    assert_eq!(regions, vec!["(a != 0)", "(b == 1)"]);
    assert_eq!(rest, "");
}

#[test]
fn parse_nested_parens_error_kinds() {
    assert_eq!(
        parse_nested_parens("(a").unwrap_err().kind,
        ErrorKind::UnterminatedDelimiter
    );
    assert_eq!(
        parse_nested_parens(")a").unwrap_err().kind,
        ErrorKind::UnmatchedClosingDelimiter
    );
    assert_eq!(
        parse_nested_parens("a(b)").unwrap_err().kind,
        ErrorKind::MalformedPrefix
    );
    assert_eq!(
        parse_nested_parens("(a) ) x").unwrap_err().kind,
        ErrorKind::UnmatchedClosingDelimiter
    );
}
