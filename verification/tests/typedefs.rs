use bt_parser::parsing::typedef_line::typedef_member::{typedef_member, TypedefMember};
use bt_parser::parsing::typedef_line::typedef_members::typedef_members;
use bt_parser::parsing::typedef_line::{
    parse_typedef_args, parse_typedef_name, parse_typedef_with_alias_name, typedef_line,
};
use bt_parser::types::nested::Nested;

fn td_leaf(s: &str) -> Nested {
    Nested::Text(s.to_string())
}

#[test]
fn test_parse_alias_name1() {
    let input = r#"{
    } PlayerGameData <size=0x1B0>;"#;
    let result = parse_typedef_with_alias_name(input);
    assert!(result.is_some());
    let (input, result) = result.unwrap();
    assert_eq!(input, "");
    match result {
        Nested::List(values) => {
            assert_eq!(values.len(), 3);
            match &values[0] {
                Nested::List(_) => panic!("Expected Nested::List"),
                Nested::Text(value) => assert_eq!(value, "PlayerGameData"),
            }
            assert_eq!(values[1], td_leaf(""));
            match &values[2] {
                Nested::List(values) => {
                    assert_eq!(values.len(), 2);
                    assert_eq!(values[0], td_leaf("size="));
                    assert_eq!(values[1], td_leaf("0x1B0"));
                }
                _ => panic!("Expected Nested::List"),
            }
        }
        _ => panic!("Expected Nested::List"),
    }
}

#[test]
fn test_parse_alias_name2() {
    let input = r#"{
    } PlayerGameData;"#;
    let result = parse_typedef_with_alias_name(input);
    assert!(result.is_none());
}

#[test]
fn test_parse_alias_name3() {
    let input = r#"PlayerGameData {
    };"#;
    let result = parse_typedef_with_alias_name(input);
    assert!(result.is_none());
}

#[test]
fn test_parse_typedef_args1() {
    let input = r#"(int size, int size2)"#;
    let result = parse_typedef_args(input);
    assert_eq!(
        result,
        Some((
            "",
            Nested::List(vec![
                Nested::List(vec![td_leaf("int"), td_leaf("size")]),
                Nested::List(vec![td_leaf("int"), td_leaf("size2")]),
            ])
        ))
    );
}

#[test]
fn test_parse_typedef_name1() {
    let input = r#"Foo {"#;
    let result = parse_typedef_name(input);
    assert_eq!(result, Some(("{", td_leaf("Foo"))));
}

#[test]
fn test_parse_typedef_name2() {
    let input = r#"Bar"#;
    match input.matches('{').count() {
        0 => (),
        _ => panic!("test input should not contain '{{' in order to pass this test"),
    }
    let result = parse_typedef_name(input);
    assert!(result.is_none());
}

#[test]
fn test_parse_typedef_line1() {
    let input = r#"typedef struct Foo {
} PlayerGameData <size=0x1B0>;
"#;
    let result = typedef_line(input);
    assert!(result.is_some());
    let (input, result) = result.unwrap();
    assert_eq!(input, "");
    match result {
        Nested::List(values) => {
            assert_eq!(values.len(), 3);
            assert_eq!(values[0], td_leaf("typedef"));
            assert_eq!(values[1], td_leaf("struct"));
            match &values[2] {
                Nested::List(values) => {
                    assert_eq!(values.len(), 3);
                    match &values[0] {
                        Nested::List(value) => {
                            assert_eq!(value.len(), 2);
                            assert_eq!(value[0], td_leaf("Foo"));
                            assert_eq!(value[1], td_leaf("PlayerGameData"));
                        }
                        _ => panic!("Expected Nested::List"),
                    }
                    assert_eq!(values[1], td_leaf(""));
                    match &values[2] {
                        Nested::List(values) => {
                            assert_eq!(values.len(), 2);
                            assert_eq!(values[0], td_leaf("size="));
                            assert_eq!(values[1], td_leaf("0x1B0"));
                        }
                        _ => panic!("Expected Nested::List"),
                    }
                }
                _ => panic!("Expected Nested::List"),
            }
        }
        _ => panic!("Expected Nested::List"),
    }
}

#[test]
fn test_parse_typedef_line2() {
    let input = r#"typedef struct {
  wchar_t  CharacterName[0x10];
} PlayerGameData <size=0x1B0>;
"#;
    let result = typedef_line(input);
    assert!(result.is_some());
    let (input, result) = result.unwrap();
    assert_eq!(input, "");
    match result {
        Nested::List(values) => {
            assert_eq!(values.len(), 3);
            assert_eq!(values[0], td_leaf("typedef"));
            assert_eq!(values[1], td_leaf("struct"));
            match &values[2] {
                Nested::List(values) => {
                    assert_eq!(values.len(), 3);
                    assert_eq!(values[0], td_leaf("PlayerGameData"));
                    match &values[1] {
                        Nested::Text(value) => {
                            let byte_value = value.as_bytes();
                            let expected_byte_value = "wchar_t  CharacterName[0x10];".as_bytes();
                            assert_eq!(byte_value, expected_byte_value);
                        }
                        _ => panic!("Expected Nested::Text"),
                    }
                    match &values[2] {
                        Nested::List(values) => {
                            assert_eq!(values.len(), 2);
                            assert_eq!(values[0], td_leaf("size="));
                            assert_eq!(values[1], td_leaf("0x1B0"));
                        }
                        _ => panic!("Expected Nested::List"),
                    }
                }
                _ => panic!("Expected Nested::List"),
            }
        }
        _ => panic!("Expected Nested::List"),
    }
}

#[test]
fn test_parse_typedef_line3() {
    let input = r#"typedef struct (int size, int size2) {
  EquipInventoryDataEntry CharacterName[size];
} EquipInventoryData;
"#;
    let result = typedef_line(input);
    assert_eq!(
        result,
        Some((
            r#"{
  EquipInventoryDataEntry CharacterName[size];
} EquipInventoryData;
"#,
            Nested::List(vec![
                td_leaf("typedef"),
                td_leaf("struct"),
                Nested::List(vec![
                    Nested::List(vec![td_leaf("int"), td_leaf("size")]),
                    Nested::List(vec![td_leaf("int"), td_leaf("size2")]),
                ]),
            ])
        ))
    );
}

#[test]
fn test_typedef_member1() {
    // Test that all members can be parsed
    for member in TypedefMember::iterator() {
        let member_string = member.to_str();
        let result = typedef_member(member_string);
        assert!(result.is_some());
    }
}

#[test]
fn test_typedef_member2() {
    // Test that an invalid member cannot be parsed
    let input = "invalid_member";
    let result = typedef_member(input);
    assert!(result.is_none());
}

#[test]
fn typedef_member_test_typedef_member3() {
    // Test that a valid member can be parsed
    let input = "unsigned int myInt;";
    let result = typedef_member(input);
    assert!(result.is_some());
    let (rest, member) = result.unwrap();
    assert_eq!(rest, "int myInt;");
    assert_eq!(member, td_leaf("unsigned"));
}

#[test]
fn member_trial_order_is_longest_first() {
    // `int32` must win over its prefix `int`, and `uint32` over `uint`.
    let (rest, member) = typedef_member("int32 x;").unwrap();
    assert_eq!(member, td_leaf("int32"));
    assert_eq!(rest, "x;");
    let (rest, member) = typedef_member("uint32 x;").unwrap();
    assert_eq!(member, td_leaf("uint32"));
    assert_eq!(rest, "x;");
}

#[test]
fn member_vocabulary_is_complete() {
    let members = TypedefMember::iterator();
    assert_eq!(members.len(), 37);
    assert_eq!(TypedefMember::WCharT.to_str(), "wchar_t");
    assert_eq!(TypedefMember::UnInt32.to_str(), "uint32");
    assert_eq!(TypedefMember::Enum.to_str(), "enum");
}

#[test]
fn test_typedef_members1() {
    // Test that a single member can be parsed
    let input = "unsigned int myInt;";
    let result = typedef_members(input);
    assert!(result.is_some());
    let (rest, members) = result.unwrap();
    assert_eq!(rest, "");
    assert_eq!(
        members,
        Nested::List(vec![
            td_leaf("myInt"),
            Nested::List(vec![td_leaf("unsigned"), td_leaf("int")])
        ])
    );
}

#[test]
fn test_typedef_members2() {
    let input = "unsigned unsigned unsigned unsigned int myInt;";
    let result = typedef_members(input);
    assert!(result.is_some());
    let (rest, members) = result.unwrap();
    assert_eq!(rest, "");
    assert_eq!(
        members,
        Nested::List(vec![
            td_leaf("myInt"),
            Nested::List(vec![
                td_leaf("unsigned"),
                td_leaf("unsigned"),
                td_leaf("unsigned"),
                td_leaf("unsigned"),
                td_leaf("int")
            ])
        ])
    );
}

#[test]
fn test_typedef_members3() {
    let input = "unsigned int myInt; unsigned int myInt2;";
    let result = typedef_members(input);
    assert!(result.is_some());
    let (rest, members) = result.unwrap();
    assert_eq!(rest, " unsigned int myInt2;");
    assert_eq!(
        members,
        Nested::List(vec![
            td_leaf("myInt"),
            Nested::List(vec![td_leaf("unsigned"), td_leaf("int")])
        ])
    );
}

#[test]
fn typedef_members_test_typedef_member3() {
    let input = "struct {};";
    let result = typedef_members(input);
    assert!(result.is_none());
}

#[test]
fn test_typedef_member4() {
    let input = "struct {";
    let result = typedef_members(input);
    assert!(result.is_none());
}
