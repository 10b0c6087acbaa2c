use bt_parser::ast::{Expr, Expression};
use bt_parser::parse_nested::{
    decimal_number, decimal_number_with_paren, expression, expression_tag, hex_number, identifier,
    logical_and, not_expression_tag, number, number_with_paren, operator,
};

#[test]
fn test_expression_tag1() {
    for expr in Expression::variants() {
        let ignored = vec![
            Expression::BinaryAnd,
            Expression::BinaryOr,
            Expression::Subtract,
            Expression::Add,
            Expression::GreaterThan,
            Expression::LessThan,
        ];
        if ignored.into_iter().any(|r| r.to_str() == expr.to_str()) {
            continue;
        }
        let tag_on = format!("{}{}", expr.to_str(), expr.to_str());
        let tag_on = tag_on.as_str();
        assert!(
            expression_tag(&expr, tag_on).is_none(),
            "Passed on {}",
            tag_on
        );
    }
}

#[test]
fn test_expression_tag2() {
    for expr in Expression::variants() {
        let tag_on = format!("{}", expr.to_str());
        let tag_on = tag_on.as_str();
        assert!(
            expression_tag(&expr, tag_on).is_some(),
            "Failed on {}",
            tag_on
        );
    }
}

#[test]
fn test_operator1() {
    for expr in Expression::variants() {
        let ignored = vec![
            Expression::BinaryAnd,
            Expression::BinaryOr,
            Expression::Subtract,
            Expression::Add,
            Expression::GreaterThan,
            Expression::LessThan,
        ];
        if ignored.into_iter().any(|r| r.to_str() == expr.to_str()) {
            continue;
        }
        let tag_on = format!("{}{}", expr.to_str(), expr.to_str());
        let tag_on = tag_on.as_str();
        assert!(operator(tag_on).is_none(), "Passed on {}", tag_on);
    }
}

#[test]
fn test_operator2() {
    for expr in Expression::variants() {
        let tag_on = format!("{}", expr.to_str());
        let tag_on = tag_on.as_str();
        assert!(operator(tag_on).is_some(), "Failed on {}", tag_on);
    }
}

#[test]
fn test_not_expression_tag1() {
    let suffix = "!";
    for expr in Expression::variants() {
        let tag_on = format!("{}{}", expr.to_str(), suffix);
        assert!(
            not_expression_tag(tag_on.as_str()).is_none(),
            "Passed on {}",
            tag_on
        );
    }
}

#[test]
fn test_not_expression_tag2() {
    let suffix = "a";
    let tag_on = format!("{}", suffix);
    assert!(
        not_expression_tag(tag_on.as_str()).is_some(),
        "Failed on {}",
        tag_on
    );
}

#[test]
fn test_not_expression_tag3() {
    let tag_on = format!("!=");
    assert!(
        not_expression_tag(tag_on.as_str()).is_none(),
        "Passed on {}",
        tag_on
    );
}

#[test]
fn test_parse_conditional1() {
    let input = r#"(ItemID != 0) && ((ItemID & 0xf0000000) == 0)"#;
    let expected_rest = r#"&& ((ItemID & 0xf0000000) == 0)"#;
    let expected_result = vec!["ItemID", "!=", "0"];

    let (rest, result) = expression(input).unwrap();

    assert_eq!(rest, expected_rest);
    assert_eq!(result, expected_result);
}

#[test]
fn test_parse_conditional2() {
    let input = r#"ItemID != 0"#;
    let expected_rest = r#""#;
    let expected_result = vec!["ItemID", "!=", "0"];

    let (rest, result) = expression(input).unwrap();

    assert_eq!(rest, expected_rest);
    assert_eq!(result, expected_result);
}

#[test]
fn ident_op_zero_for_every_unambiguous_operator() {
    let ambiguous = vec!["&", "|", "-", "+", ">", "<"];
    for expr in Expression::variants() {
        if ambiguous.contains(&expr.to_str()) {
            continue;
        }
        let input = format!("IDENT {} 0", expr.to_str());
        let (rest, result) = expression(input.as_str()).unwrap();
        assert_eq!(rest, "", "left over on {}", input);
        assert_eq!(result, vec!["IDENT", expr.to_str(), "0"], "on {}", input);
    }
}

#[test]
fn operator_takes_longest_munch() {
    assert_eq!(operator("<<= x"), Some(("x", "<<=")));
    assert_eq!(operator("<= x"), Some(("x", "<=")));
    assert_eq!(operator(">>="), Some(("", ">>=")));
    assert_eq!(operator("&& y"), Some(("y", "&&")));
}

#[test]
fn identifier_trims_and_requires_alnum() {
    assert_eq!(identifier("  foo bar"), Some(("bar", "foo")));
    assert_eq!(identifier("foo"), Some(("", "foo")));
    assert!(identifier("  !x").is_none());
    assert!(identifier("").is_none());
}

#[test]
fn hex_number_keeps_prefix() {
    assert_eq!(hex_number("0xf0000000 rest"), Some(("rest", "0xf0000000")));
    assert_eq!(hex_number("0x10"), Some(("", "0x10")));
    assert!(hex_number("0x").is_none());
    assert!(hex_number("10").is_none());
}

#[test]
fn decimal_number_rejects_trailing_letter_or_punctuation() {
    assert_eq!(decimal_number("42 "), Some(("", "42")));
    assert!(decimal_number("0f0").is_none());
    assert!(decimal_number("1)").is_none());
}

#[test]
fn decimal_number_with_paren_allows_closing_paren() {
    assert_eq!(decimal_number_with_paren("1)"), Some((")", "1")));
    assert!(decimal_number_with_paren("0f0").is_none());
}

#[test]
fn number_prefers_hex() {
    assert_eq!(number(" 0x1F"), Some(("", "0x1F")));
    assert_eq!(number(" 7 "), Some(("", "7")));
    assert_eq!(number_with_paren("0)"), Some((")", "0")));
}

#[test]
fn logical_and_splits_clauses() {
    let (rest, clauses) = logical_and("(a != 0) && (b == 1)").unwrap();
    assert_eq!(rest, "");
    assert_eq!(clauses, vec![vec!["a", "!=", "0"], vec!["b", "==", "1"]]);
}

#[test]
fn expr_tree_holds_operators() {
    let e = Expr::BinaryOp {
        left: Box::new(Expr::Identifier("ItemID".to_string())),
        op: Expression::NotEquals,
        right: Box::new(Expr::Parens(Box::new(Expr::Literal(0)))),
    };
    match e {
        Expr::BinaryOp { op, .. } => assert_eq!(op.to_str(), "!="),
        _ => panic!("expected a binary operation"),
    }
}

#[test]
fn all_expressions_lists_every_operator_text() {
    let all = Expression::all_expressions();
    assert_eq!(all.len(), 33);
    assert_eq!(all[0], "&&");
    assert!(all.contains(&"<<="));
    assert!(all.contains(&"?:"));
    assert!(all.contains(&"~"));
}
