use rust_test_core::canonicalize::{
    expr_to_value, expr_to_value_with_span, lit_to_value, to_tagged_object,
};
use rust_test_core::error::{ErrorKind, Span};
use rust_test_core::expand::{decode_source, resolve_cases};
use rust_test_core::json::serialize_json;
use rust_test_core::params::{test_params, ParamArg, ParamsCall, TestCaseArgs};
use rust_test_core::syntax::{Expr, Lit, LitKind, Member, UnOp};
use rust_test_core::template::{FnArg, Ident, Item, TestTemplate, TypeExpr, TypeKind};
use rust_test_core::text::{decimal, flip_sign, parse_int, precedes, same_text, IntFault};
use rust_test_core::value::{set_field, CanonicalValue, Number};

fn at(id: u64) -> Span {
    Span { id }
}

fn lit(kind: LitKind) -> Expr {
    Expr::Lit { lit: Lit { kind, span: at(10) } }
}

fn number(digits: &str) -> Expr {
    lit(LitKind::Int(digits.to_string()))
}

fn float(digits: &str) -> Expr {
    lit(LitKind::Float(digits.to_string()))
}

fn text(s: &str) -> Expr {
    lit(LitKind::Str(s.to_string()))
}

fn path(segments: &[&str]) -> Expr {
    Expr::Path { segments: segments.iter().map(|s| s.to_string()).collect(), span: at(11) }
}

fn call(func: &[&str], args: Vec<Expr>) -> Expr {
    Expr::Call { func: Box::new(path(func)), args, span: at(12) }
}

fn neg(e: Expr) -> Expr {
    Expr::Unary { op: UnOp::Neg, operand: Box::new(e), span: at(13) }
}

fn field(name: &str, value: Expr) -> (Member, Span, Expr) {
    (Member::Named(name.to_string()), at(14), value)
}

fn num(i: i64) -> CanonicalValue {
    CanonicalValue::Number(Number::Int(i))
}

fn string(s: &str) -> CanonicalValue {
    CanonicalValue::String(s.to_string())
}

fn object(fields: Vec<(&str, CanonicalValue)>) -> CanonicalValue {
    CanonicalValue::Object(fields.into_iter().map(|(k, v)| (k.to_string(), v)).collect())
}

#[test]
fn some_unwraps_and_none_is_null() {
    assert_eq!(expr_to_value(&call(&["Some"], vec![number("5")])).unwrap(), num(5));
    assert_eq!(expr_to_value(&path(&["None"])).unwrap(), CanonicalValue::Null);
    assert_eq!(expr_to_value(&path(&["Option", "None"])).unwrap(), string("None"));
    assert_eq!(expr_to_value(&path(&["Color", "Red"])).unwrap(), string("Red"));
    assert_eq!(
        expr_to_value(&call(&["Some"], vec![number("1"), number("2")])).unwrap(),
        object(vec![("Some", CanonicalValue::Array(vec![num(1), num(2)]))])
    );
    assert_eq!(
        expr_to_value(&call(&["std", "Some"], vec![number("1")])).unwrap(),
        object(vec![("Some", num(1))])
    );
}

#[test]
fn struct_literals_become_objects() {
    let point = Expr::Struct {
        path: vec!["Point".to_string()],
        fields: vec![field("y", number("2")), field("x", number("1"))],
        span: at(15),
    };
    assert_eq!(expr_to_value(&point).unwrap(), object(vec![("x", num(1)), ("y", num(2))]));
    let variant = Expr::Struct {
        path: vec!["TestEnum".to_string(), "D".to_string()],
        fields: vec![field("x", number("1")), field("x", number("3"))],
        span: at(15),
    };
    assert_eq!(
        expr_to_value(&variant).unwrap(),
        object(vec![("D", object(vec![("x", num(3))]))])
    );
    let unnamed = Expr::Struct {
        path: vec!["P".to_string()],
        fields: vec![(Member::Unnamed(0), at(16), number("1"))],
        span: at(15),
    };
    let err = expr_to_value(&unnamed).unwrap_err();
    assert_eq!(err.kind, ErrorKind::UnsupportedExpression);
    assert_eq!(err.span, at(16));
    assert_eq!(err.to_string(), "Expected named field");
}

#[test]
fn calls_become_tagged_objects() {
    assert_eq!(
        expr_to_value(&call(&["Enum", "C"], vec![number("10")])).unwrap(),
        object(vec![("C", num(10))])
    );
    assert_eq!(
        expr_to_value(&call(&["Ok"], vec![number("1")])).unwrap(),
        object(vec![("Ok", num(1))])
    );
    assert_eq!(
        expr_to_value(&call(&["Unit"], Vec::new())).unwrap(),
        object(vec![("Unit", CanonicalValue::Array(Vec::new()))])
    );
    assert_eq!(
        to_tagged_object("V".to_string(), vec![num(1), num(2)]),
        object(vec![("V", CanonicalValue::Array(vec![num(1), num(2)]))])
    );
    let bad = Expr::Call { func: Box::new(number("1")), args: Vec::new(), span: at(12) };
    let err = expr_to_value(&bad).unwrap_err();
    assert_eq!(err.to_string(), "Expected a variant name");
    assert_eq!(err.span, at(10));
    let first = call(&["V"], vec![Expr::Other { span: at(20) }, Expr::Other { span: at(21) }]);
    assert_eq!(expr_to_value(&first).unwrap_err().span, at(20));
}

#[test]
fn literals_map_directly() {
    assert_eq!(expr_to_value(&text("a")).unwrap(), string("a"));
    assert_eq!(expr_to_value(&lit(LitKind::Bool(true))).unwrap(), CanonicalValue::Bool(true));
    assert_eq!(expr_to_value(&number("9223372036854775807")).unwrap(), num(i64::MAX));
    assert_eq!(
        expr_to_value(&float("1.50")).unwrap(),
        CanonicalValue::Number(Number::Float("1.5".to_string()))
    );
    let err = expr_to_value(&number("9223372036854775808")).unwrap_err();
    assert_eq!(err.kind, ErrorKind::InvalidNumber);
    assert_eq!(err.to_string(), "number too large to fit in target type");
    let err = expr_to_value(&float("1e999")).unwrap_err();
    assert_eq!(err.kind, ErrorKind::InvalidNumber);
    assert_eq!(err.to_string(), "Invalid float");
    let err = lit_to_value(&Lit { kind: LitKind::Other, span: at(3) }).unwrap_err();
    assert_eq!(err.kind, ErrorKind::UnsupportedExpression);
    assert_eq!(err.to_string(), "Unsupported literal type");
    let err = expr_to_value(&Expr::Other { span: at(4) }).unwrap_err();
    assert_eq!(err.kind, ErrorKind::UnsupportedExpression);
    assert_eq!(err.span, at(4));
    let with_span = expr_to_value_with_span(&text("a")).unwrap();
    assert_eq!(with_span.span, at(10));
    assert_eq!(with_span.suffix, None);
}

#[test]
fn negation_keeps_the_kind_of_number() {
    assert_eq!(expr_to_value(&neg(number("5"))).unwrap(), num(-5));
    assert_eq!(expr_to_value(&neg(neg(number("5")))).unwrap(), num(5));
    assert_eq!(expr_to_value(&neg(number("0"))).unwrap(), num(0));
    assert_eq!(
        expr_to_value(&neg(float("1.5"))).unwrap(),
        CanonicalValue::Number(Number::Float("-1.5".to_string()))
    );
    assert_eq!(
        expr_to_value(&neg(neg(float("0.0")))).unwrap(),
        CanonicalValue::Number(Number::Float("0.0".to_string()))
    );
    assert_eq!(expr_to_value(&neg(call(&["Some"], vec![number("2")]))).unwrap(), num(-2));
    let err = expr_to_value(&neg(text("a"))).unwrap_err();
    assert_eq!(err.to_string(), "Negation only supported for numbers");
    let not = Expr::Unary { op: UnOp::Not, operand: Box::new(number("1")), span: at(13) };
    assert_eq!(expr_to_value(&not).unwrap_err().to_string(), "Unsupported unary operator");
    let inner = expr_to_value(&neg(Expr::Other { span: at(30) })).unwrap_err();
    assert_eq!(inner.span, at(30));
}

#[test]
fn canonical_values_survive_a_round_trip_through_text() {
    let exprs = vec![
        call(&["Some"], vec![number("5")]),
        path(&["None"]),
        call(&["Enum", "C"], vec![neg(float("2.25")), text("a\"b\n")]),
        Expr::Struct {
            path: vec!["Point".to_string()],
            fields: vec![field("y", number("2")), field("x", lit(LitKind::Bool(false)))],
            span: at(15),
        },
    ];
    for e in &exprs {
        let value = expr_to_value(e).unwrap();
        let written = serialize_json(&value).unwrap();
        let read = decode_source(&written, &None, at(0)).unwrap();
        assert_eq!(read, value);
        assert_eq!(serialize_json(&read).unwrap(), written);
    }
}

#[test]
fn decoding_sorts_keys_and_tells_numbers_apart() {
    let v = decode_source("{\"b\":1,\"a\":-2,\"c\":18446744073709551615,\"d\":1e2}", &None, at(0))
        .unwrap();
    assert_eq!(
        v,
        object(vec![
            ("a", num(-2)),
            ("b", num(1)),
            ("c", CanonicalValue::Number(Number::UInt(u64::MAX))),
            ("d", CanonicalValue::Number(Number::Float("100.0".to_string()))),
        ])
    );
}

#[test]
fn setting_a_field_keeps_the_keys_in_order() {
    let mut fields: Vec<(String, CanonicalValue)> = Vec::new();
    set_field(&mut fields, "m".to_string(), num(1));
    set_field(&mut fields, "a".to_string(), num(2));
    set_field(&mut fields, "z".to_string(), num(3));
    set_field(&mut fields, "m".to_string(), num(4));
    set_field(&mut fields, "ma".to_string(), num(5));
    let keys: Vec<&str> = fields.iter().map(|f| f.0.as_str()).collect();
    assert_eq!(keys, vec!["a", "m", "ma", "z"]);
    assert_eq!(fields[1].1, num(4));
}

#[test]
fn the_ambiguity_resolver_tells_cases_from_a_sequence() {
    let lists = decode_source("[[1,2],[3,4]]", &None, at(0)).unwrap();
    let cases = resolve_cases(lists, true, at(1));
    assert_eq!(cases.len(), 2);
    assert_eq!(cases[0].value, CanonicalValue::Array(vec![num(1), num(2)]));
    assert_eq!(cases[1].span, at(1));
    let single = decode_source("[1,2,3]", &None, at(0)).unwrap();
    let cases = resolve_cases(single, true, at(1));
    assert_eq!(cases.len(), 1);
    assert_eq!(cases[0].value, CanonicalValue::Array(vec![num(1), num(2), num(3)]));
    let elements = decode_source("[1,2,3]", &None, at(0)).unwrap();
    assert_eq!(resolve_cases(elements, false, at(1)).len(), 3);
    assert_eq!(resolve_cases(num(7), true, at(1)).len(), 1);
    assert_eq!(resolve_cases(CanonicalValue::Array(Vec::new()), true, at(1)).len(), 0);
    let mixed = decode_source("[[1],2]", &None, at(0)).unwrap();
    assert_eq!(resolve_cases(mixed, true, at(1)).len(), 1);
}

fn ident(name: &str) -> Ident {
    Ident { name: name.to_string(), span: at(1) }
}

fn template(name: &str, types: &[&str]) -> TestTemplate {
    TestTemplate {
        ident: ident(name),
        inputs: types
            .iter()
            .map(|t| FnArg::Typed {
                ty: TypeExpr {
                    text: t.to_string(),
                    kind: TypeKind::Path { last: Some(t.to_string()) },
                    span: at(2),
                },
            })
            .collect(),
        inputs_span: at(3),
        attrs: Vec::new(),
        body: Vec::new(),
    }
}

fn params(args: Vec<ParamArg>) -> ParamsCall {
    ParamsCall { args, span: at(8) }
}

#[test]
fn three_stacked_declarations_give_three_tests() {
    let mut current = template("test_simple", &["u32"]);
    let mut tests = Vec::new();
    for digits in ["1", "2", "3"] {
        let call = params(vec![ParamArg::Single(number(digits))]);
        let set = test_params(&call, Item::Fn(current), &Vec::new()).unwrap();
        assert_eq!(set.tests.len(), 1);
        assert_eq!(set.implementation.ident.name, "__test_simple_impl");
        tests.extend(set.tests);
        current = set.implementation;
    }
    let names: Vec<&str> = tests.iter().map(|t| t.name.as_str()).collect();
    assert_eq!(names, vec!["test_simple__1", "test_simple__2", "test_simple__3"]);
    let values: Vec<&str> = tests.iter().map(|t| t.json.as_str()).collect();
    assert_eq!(values, vec!["1", "2", "3"]);
    for t in &tests {
        assert_eq!(t.impl_name, "__test_simple_impl");
        assert_eq!(t.type_text, "u32");
        assert!(t.render().contains("__test_simple_impl (data) ;"));
    }
}

#[test]
fn inline_values_are_packed_by_the_number_of_parameters() {
    let two = params(vec![ParamArg::Single(number("1")), ParamArg::Single(text("one"))]);
    let set = test_params(&two, Item::Fn(template("t", &["u32", "String"])), &Vec::new()).unwrap();
    assert_eq!(set.tests[0].json, "[1,\"one\"]");
    assert!(set.tests[0].is_tuple);
    assert_eq!(set.tests[0].name, "t__1_one");

    let one = params(vec![ParamArg::Single(number("1"))]);
    let err = test_params(&one, Item::Fn(template("t", &["u32", "String"])), &Vec::new())
        .unwrap_err();
    assert_eq!(err.kind, ErrorKind::ArityMismatch);
    assert_eq!(
        err.to_string(),
        "Test function expects 2 arguments, but 1 were provided in #[test_params]"
    );

    let many = params(vec![ParamArg::Single(number("1")), ParamArg::Single(number("2"))]);
    let set = test_params(&many, Item::Fn(template("t", &["Vec"])), &Vec::new()).unwrap();
    assert_eq!(set.tests[0].json, "[1,2]");
    assert!(!set.tests[0].is_tuple);

    let group = params(vec![ParamArg::Group(vec![number("1"), number("2")])]);
    let set = test_params(&group, Item::Fn(template("t", &["Pair"])), &Vec::new()).unwrap();
    assert_eq!(set.tests[0].json, "[1,2]");

    let err = test_params(&one, Item::Fn(template("t", &[])), &Vec::new()).unwrap_err();
    assert_eq!(err.kind, ErrorKind::UntypedReceiver);
    assert_eq!(
        err.to_string(),
        "Test function must have at least one argument when using #[test_params]"
    );

    let err = TestCaseArgs::parse(&params(Vec::new())).unwrap_err();
    assert_eq!(err.kind, ErrorKind::ArityMismatch);
    assert_eq!(err.to_string(), "Expected at least one test case value");

    let other = Item::Other { detail: "expected `fn`".to_string(), span: at(9) };
    let err = test_params(&one, other, &Vec::new()).unwrap_err();
    assert_eq!(err.to_string(), "Expected a function: expected `fn`");
}

#[test]
fn text_helpers_agree_with_std() {
    assert_eq!(decimal(0), "0");
    assert_eq!(decimal(u64::MAX), u64::MAX.to_string());
    assert_eq!(parse_int("0042"), Ok(42));
    assert_eq!(parse_int(""), Err(IntFault::Empty));
    assert_eq!(parse_int("4x"), Err(IntFault::InvalidDigit));
    assert_eq!(parse_int("-4"), Err(IntFault::InvalidDigit));
    assert_eq!(parse_int("9223372036854775808"), Err(IntFault::Overflow));
    assert_eq!(flip_sign("-1.5"), "1.5");
    assert_eq!(flip_sign("1.5"), "-1.5");
    assert!(same_text("ab", "ab"));
    assert!(!same_text("ab", "abc"));
    for (a, b) in [("a", "b"), ("a", "ab"), ("", "a"), ("ab", "b"), ("é", "z"), ("a", "a"), ("b", "a")] {
        assert_eq!(precedes(a, b), a < b);
    }
}

#[test]
fn the_value_does_not_depend_on_where_the_expression_stands() {
    let here = Expr::Call {
        func: Box::new(Expr::Path { segments: vec!["V".to_string()], span: at(1) }),
        args: vec![Expr::Lit { lit: Lit { kind: LitKind::Int("7".to_string()), span: at(2) } }],
        span: at(3),
    };
    let there = Expr::Call {
        func: Box::new(Expr::Path { segments: vec!["V".to_string()], span: at(41) }),
        args: vec![Expr::Lit { lit: Lit { kind: LitKind::Int("7".to_string()), span: at(42) } }],
        span: at(43),
    };
    assert_eq!(expr_to_value(&here).unwrap(), expr_to_value(&there).unwrap());
    let bad_here = neg(Expr::Other { span: at(5) });
    let bad_there = neg(Expr::Other { span: at(55) });
    let a = expr_to_value(&bad_here).unwrap_err();
    let b = expr_to_value(&bad_there).unwrap_err();
    assert_eq!(a.kind, b.kind);
    assert_eq!(a.to_string(), b.to_string());
    assert_ne!(a.span, b.span);
}

#[test]
fn a_value_without_floats_is_always_written() {
    let v = object(vec![
        ("a", CanonicalValue::Array(vec![num(i64::MIN), CanonicalValue::Null])),
        ("b", CanonicalValue::Number(Number::UInt(u64::MAX))),
        ("c", string("\u{0}\"\\")),
    ]);
    assert_eq!(
        serialize_json(&v).unwrap(),
        "{\"a\":[-9223372036854775808,null],\"b\":18446744073709551615,\"c\":\"\\u0000\\\"\\\\\"}"
    );
}
