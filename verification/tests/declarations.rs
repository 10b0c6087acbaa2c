use bt_parser::errors::ErrorKind;
use bt_parser::parsing::declaration_line::declaration_statement;
use bt_parser::parsing::declaration_line::special_attributes::special_attributes;
use bt_parser::types::nested::Nested;

fn decl_leaf(s: &str) -> Nested {
    Nested::Text(s.to_string())
}

fn decl_list(items: Vec<Nested>) -> Nested {
    Nested::List(items)
}

#[test]
fn test_declaration_statement1() {
    let input = "int a;";
    let result = declaration_statement(input).unwrap();
    assert_eq!(
        result,
        ("", decl_list(vec![decl_leaf("int"), decl_leaf("a"), decl_leaf("")]))
    );
}

#[test]
fn test_declaration_statement2() {
    let input = "int a; ";
    let result = declaration_statement(input).unwrap();
    assert_eq!(
        result,
        ("", decl_list(vec![decl_leaf("int"), decl_leaf("a"), decl_leaf("")]))
    );
}

#[test]
fn test_declaration_statement3() {
    let input = " int a; ";
    let result = declaration_statement(input).unwrap();
    assert_eq!(
        result,
        ("", decl_list(vec![decl_leaf("int"), decl_leaf("a"), decl_leaf("")]))
    );
}

#[test]
fn test_declaration_statement4() {
    let input = " int a;";
    let result = declaration_statement(input).unwrap();
    assert_eq!(
        result,
        ("", decl_list(vec![decl_leaf("int"), decl_leaf("a"), decl_leaf("")]))
    );
}

#[test]
fn test_declaration_statement_with_format() {
    let input = "int a<0x%08X>;";
    let result = declaration_statement(input).unwrap();
    assert_eq!(
        result,
        ("", decl_list(vec![decl_leaf("int"), decl_leaf("a"), decl_leaf("0x%08X")]))
    );
}

#[test]
fn test_error1() {
    let input = "// Additional data for type = Weapon";
    let result = declaration_statement(input);
    assert!(result.is_none());
}

#[test]
fn test_error2() {
    let input = "if ( (ItemID != 0) && ((ItemID & 0xf0000000) == 0)) { ";
    let result = declaration_statement(input);
    assert!(result.is_none());
}

#[test]
fn declaration_with_underscore_type() {
    let input = "wchar_t  CharacterName;";
    let result = declaration_statement(input).unwrap();
    assert_eq!(
        result,
        ("", decl_list(vec![decl_leaf("wchar_t"), decl_leaf("CharacterName"), decl_leaf("")]))
    );
}

#[test]
fn test_special_attributes1() {
    let input = r#"read=Str("<%g %g %g>",this[0],this[1],this[2])"#;
    let expected_rest = "";
    let expected_result = decl_list(vec![
        decl_leaf("read="),
        decl_leaf(r#"Str("<%g %g %g>",this[0],this[1],this[2])"#),
    ]);

    let (rest, result) = special_attributes(input).unwrap();

    assert_eq!(rest, expected_rest);
    assert_eq!(result, expected_result);
}

#[test]
fn test_special_attributes2() {
    let input = "bgcolor=(this < 0 ? cRed : cNone )";
    let expected_rest = "";
    let expected_result =
        decl_list(vec![decl_leaf("bgcolor="), decl_leaf("(this < 0 ? cRed : cNone )")]);

    let (rest, result) = special_attributes(input).unwrap();

    assert_eq!(rest, expected_rest);
    assert_eq!(result, expected_result);
}

#[test]
fn test_special_attributes3() {
    let input = r#"comment="This should be greater than 15.""#;
    let expected_rest = "";
    let expected_result = decl_list(vec![
        decl_leaf("comment="),
        decl_leaf(r#""This should be greater than 15.""#),
    ]);

    let (rest, result) = special_attributes(input).unwrap();

    assert_eq!(rest, expected_rest);
    assert_eq!(result, expected_result);
}

#[test]
fn special_attributes_excludes_carriage_return_from_value() {
    let (rest, result) = special_attributes("size=0x10\r\n").unwrap();
    assert_eq!(result, decl_list(vec![decl_leaf("size="), decl_leaf("0x10")]));
    assert_eq!(rest, "\r\n");
}

#[test]
fn special_attributes_rejects_unknown_key() {
    let err = special_attributes("bogus=1").unwrap_err();
    assert_eq!(err.kind, ErrorKind::UnknownAttributeKey);
    assert_eq!(err.input, "bogus=1");
}
