use toy_df::common::scalar::ScalarValue;
use toy_df::expr::text::exprs_debug_text;
use toy_df::expr::{AggregateFunction, BinaryExpr, BinaryOperator, Column, Expr, ScalarFunction};

fn column(name: &str) -> Expr {
    Expr::Column(Column { name: name.to_string() })
}

fn same_as_debug(e: &Expr) {
    assert_eq!(e.debug_text(), format!("{:?}", e));
}

#[test]
fn column_text() {
    let e = column("age");
    assert_eq!(e.debug_text(), "Column(Column { name: \"age\" })");
    same_as_debug(&e);
}

#[test]
fn literal_texts_of_every_scalar() {
    let values = vec![
        ScalarValue::Boolean(Some(true)),
        ScalarValue::Boolean(Some(false)),
        ScalarValue::Boolean(None),
        ScalarValue::Int8(Some(-128)),
        ScalarValue::Int16(Some(-7)),
        ScalarValue::Int32(Some(30)),
        ScalarValue::Int32(Some(0)),
        ScalarValue::Int64(Some(i64::MIN)),
        ScalarValue::Int64(Some(i64::MAX)),
        ScalarValue::UInt8(Some(255)),
        ScalarValue::UInt16(Some(65535)),
        ScalarValue::UInt32(None),
        ScalarValue::UInt64(Some(Box::new(u64::MAX))),
        ScalarValue::UInt64(None),
        ScalarValue::String(Some(Box::new("hi".to_string()))),
        ScalarValue::String(None),
        ScalarValue::Binary(Some(Box::new(vec![]))),
        ScalarValue::Binary(Some(Box::new(vec![0, 7, 255]))),
        ScalarValue::Binary(None),
    ];
    for v in values {
        same_as_debug(&Expr::Literal(v));
    }
    assert_eq!(Expr::Literal(ScalarValue::Int32(Some(30))).debug_text(), "Literal(Int32(Some(30)))");
    assert_eq!(Expr::Literal(ScalarValue::Int64(Some(-45))).debug_text(), "Literal(Int64(Some(-45)))");
}

#[test]
fn string_escapes_match_debug() {
    let names = [
        "plain",
        "",
        "quote \" and backslash \\",
        "tab\tline\nreturn\rnul\0",
        "bell\u{7}escape\u{1b}delete\u{7f}",
        "it's",
        "caf\u{e9} \u{1f600}",
        "a\u{301}",
        "zero\u{200b}width",
        "\u{85}next line",
    ];
    for name in names {
        same_as_debug(&column(name));
        same_as_debug(&Expr::Literal(ScalarValue::String(Some(Box::new(name.to_string())))));
    }
    assert_eq!(column("a\"b").debug_text(), "Column(Column { name: \"a\\\"b\" })");
    assert_eq!(column("\u{1}").debug_text(), "Column(Column { name: \"\\u{1}\" })");
}

#[test]
fn binary_expression_text() {
    let e = column("age").gt(Expr::Literal(ScalarValue::Int32(Some(30))));
    assert_eq!(
        e.debug_text(),
        "BinaryExpr(BinaryExpr { left: Column(Column { name: \"age\" }), right: Literal(Int32(Some(30))), op: GreaterThan })"
    );
    let ops = [
        BinaryOperator::Equals,
        BinaryOperator::NotEquals,
        BinaryOperator::LessThan,
        BinaryOperator::LessThanOrEqual,
        BinaryOperator::GreaterThan,
        BinaryOperator::GreaterThanOrEqual,
        BinaryOperator::And,
        BinaryOperator::Or,
    ];
    for op in ops {
        let e = Expr::BinaryExpr(Box::new(BinaryExpr { left: column("x"), right: column("y"), op }));
        same_as_debug(&e);
    }
}

#[test]
fn function_texts() {
    let f = Expr::ScalarFunction(ScalarFunction { name: "abs".to_string(), args: vec![column("x")] });
    same_as_debug(&f);
    let g = Expr::ScalarFunction(ScalarFunction { name: "now".to_string(), args: vec![] });
    assert_eq!(g.debug_text(), "ScalarFunction(ScalarFunction { name: \"now\", args: [] })");
    let h = Expr::AggregateFunction(AggregateFunction {
        name: "sum".to_string(),
        args: vec![column("a"), Expr::Literal(ScalarValue::UInt8(Some(3))), f],
    });
    same_as_debug(&h);
}

#[test]
fn list_texts() {
    assert_eq!(exprs_debug_text(&vec![]), "[]");
    let list = vec![column("name"), column("age")];
    assert_eq!(exprs_debug_text(&list), "[Column(Column { name: \"name\" }), Column(Column { name: \"age\" })]");
    assert_eq!(exprs_debug_text(&list), format!("{:?}", list));
}
