use rust_test_core::canonicalize::ValueWithSpan;
use rust_test_core::error::{ErrorKind, Span};
use rust_test_core::json::serialize_json;
use rust_test_core::suffix::value_to_suffix;
use rust_test_core::synth::{
    build_single_test, generate_single_test, generate_test_set, serialization_failed, Prepared,
};
use rust_test_core::template::{FnArg, Ident, TestTemplate, TypeExpr, TypeKind};
use rust_test_core::value::{CanonicalValue, Number};

fn ident(name: &str) -> Ident {
    Ident { name: name.to_string(), span: Span { id: 1 } }
}

fn path_type(text: &str, last: &str) -> TypeExpr {
    TypeExpr {
        text: text.to_string(),
        kind: TypeKind::Path { last: Some(last.to_string()) },
        span: Span { id: 2 },
    }
}

fn template(name: &str, inputs: Vec<FnArg>) -> TestTemplate {
    TestTemplate {
        ident: ident(name),
        inputs,
        inputs_span: Span { id: 3 },
        attrs: Vec::new(),
        body: Vec::new(),
    }
}

fn case(value: CanonicalValue) -> ValueWithSpan {
    ValueWithSpan { value, span: Span::call_site(), suffix: None }
}

fn num(i: i64) -> CanonicalValue {
    CanonicalValue::Number(Number::Int(i))
}

fn all_variants() {
    assert_eq!(value_to_suffix(&CanonicalValue::Null), "null");
    assert_eq!(value_to_suffix(&CanonicalValue::Bool(true)), "true");
    assert_eq!(value_to_suffix(&num(123)), "123");
    assert_eq!(value_to_suffix(&CanonicalValue::String("A b".to_string())), "a_b");
    assert_eq!(value_to_suffix(&CanonicalValue::Array(vec![num(1), num(2)])), "1_2");
    let map = vec![("k".to_string(), num(3))];
    assert_eq!(value_to_suffix(&CanonicalValue::Object(map)), "3");
}

#[test]
fn test_case_source_test_value_to_suffix_all_variants() {
    all_variants();
}

#[test]
fn test_value_to_suffix_test_value_to_suffix_all_variants() {
    all_variants();
}

fn empty_suffix() {
    let input_fn = template("my_test", vec![FnArg::Typed { ty: path_type("u32", "u32") }]);
    let json_array = vec![case(CanonicalValue::Null)];
    let result = generate_test_set(
        input_fn,
        json_array,
        ident("my_test"),
        Some(path_type("u32", "u32")),
        &Vec::new(),
    );
    assert!(result.is_ok());
    let stream = result.unwrap().render();
    assert!(stream.contains("fn my_test__null"));
}

#[test]
fn test_case_source_test_generate_test_set_empty_suffix() {
    empty_suffix();
}

#[test]
fn test_generate_test_set_test_generate_test_set_empty_suffix() {
    empty_suffix();
}

fn unwritable() -> CanonicalValue {
    CanonicalValue::Number(Number::Float("not a number".to_string()))
}

#[test]
fn test_generate_test_set_serialization_error() {
    let value_type = path_type("serde_json :: Value", "Value");
    let single = generate_test_set(
        template("my_test", vec![FnArg::Typed { ty: value_type.duplicate() }]),
        vec![case(unwritable())],
        ident("my_test"),
        Some(value_type.duplicate()),
        &Vec::new(),
    );
    let err = single.unwrap_err();
    assert_eq!(err.kind, ErrorKind::SerializationFailed);
    assert!(err.to_string().contains("Failed to serialize JSON"));
    let multi = generate_test_set(
        template("my_test", vec![FnArg::Typed { ty: value_type.duplicate() }]),
        vec![case(unwritable()), case(CanonicalValue::Null)],
        ident("my_test"),
        Some(value_type),
        &Vec::new(),
    );
    assert!(multi.unwrap_err().to_string().contains("Failed to serialize JSON at index 0"));
}

#[test]
fn suffix_of_numbers_replaces_dot_and_minus() {
    assert_eq!(value_to_suffix(&num(-5)), "_5");
    assert_eq!(value_to_suffix(&num(0)), "0");
    assert_eq!(value_to_suffix(&num(i64::MIN)), "_9223372036854775808");
    assert_eq!(
        value_to_suffix(&CanonicalValue::Number(Number::UInt(u64::MAX))),
        "18446744073709551615"
    );
    assert_eq!(
        value_to_suffix(&CanonicalValue::Number(Number::Float("-1.5".to_string()))),
        "_1_5"
    );
    assert_eq!(value_to_suffix(&CanonicalValue::Bool(false)), "false");
}

#[test]
fn suffix_is_the_same_for_equal_values() {
    let a = CanonicalValue::Array(vec![num(1), CanonicalValue::String("X y".to_string())]);
    let b = CanonicalValue::Array(vec![num(1), CanonicalValue::String("X y".to_string())]);
    assert_eq!(a, b);
    assert_eq!(value_to_suffix(&a), value_to_suffix(&b));
    assert_eq!(value_to_suffix(&a), "1_x_y");
}

#[test]
fn suffix_lowercases_beyond_ascii() {
    assert_eq!(value_to_suffix(&CanonicalValue::String("ÄB-c".to_string())), "äb_c");
    assert_eq!(value_to_suffix(&CanonicalValue::String(String::new())), "");
    assert_eq!(value_to_suffix(&CanonicalValue::Array(Vec::new())), "");
}

#[test]
fn names_fall_back_to_the_index_for_an_empty_suffix() {
    let one = generate_test_set(
        template("t", vec![FnArg::Typed { ty: path_type("String", "String") }]),
        vec![case(CanonicalValue::String(String::new()))],
        ident("t"),
        None,
        &Vec::new(),
    )
    .unwrap();
    assert_eq!(one.tests.len(), 1);
    assert_eq!(one.tests[0].name, "t");
    assert_eq!(one.tests[0].doc, "Generated test t");
    assert_eq!(one.implementation.ident.name, "__t_impl");
    let three = generate_test_set(
        template("t", vec![FnArg::Typed { ty: path_type("String", "String") }]),
        vec![
            case(CanonicalValue::String(String::new())),
            case(CanonicalValue::String(String::new())),
            case(CanonicalValue::String("a".to_string())),
        ],
        ident("t"),
        None,
        &Vec::new(),
    )
    .unwrap();
    let names: Vec<&str> = three.tests.iter().map(|t| t.name.as_str()).collect();
    assert_eq!(names, vec!["t_0", "t_1", "t__a"]);
    assert_eq!(three.tests[1].doc, "Generated test t #1");
}

#[test]
fn a_precomputed_suffix_goes_before_the_derived_one() {
    let c = ValueWithSpan {
        value: CanonicalValue::Null,
        span: Span::call_site(),
        suffix: Some("given".to_string()),
    };
    let t = generate_single_test(&ident("t"), "__t_impl", &c, None, "u32", false, 1).unwrap();
    assert_eq!(t.name, "t__given");
}

#[test]
fn an_implementation_name_is_taken_apart() {
    let set = generate_test_set(
        template("__f_impl", vec![FnArg::Typed { ty: path_type("u32", "u32") }]),
        vec![case(num(2))],
        ident("__f_impl"),
        None,
        &Vec::new(),
    )
    .unwrap();
    assert_eq!(set.implementation.ident.name, "__f_impl");
    assert_eq!(set.tests[0].name, "f__2");
    assert_eq!(set.tests[0].impl_name, "__f_impl");
}

#[test]
fn rendering_a_test_writes_its_declaration() {
    let t = generate_single_test(
        &ident("t"),
        "__t_impl",
        &case(CanonicalValue::String("a\"b".to_string())),
        Some(3),
        "String",
        false,
        1,
    )
    .unwrap();
    assert_eq!(t.json, "\"a\\\"b\"");
    assert_eq!(
        t.render(),
        "#[doc = \"Generated test t #3\"] #[test] #[allow(non_snake_case)] fn t__a_b () { let data : String = rust_test_framework :: __private :: serde_json :: from_str (\"\\\"a\\\\\\\"b\\\"\") . unwrap () ; __t_impl (data) ; }"
    );
    let tuple = generate_single_test(
        &ident("t"),
        "__t_impl",
        &case(CanonicalValue::Array(vec![num(1), num(2)])),
        None,
        "(u32 , u32)",
        true,
        2,
    )
    .unwrap();
    assert!(tuple.render().contains("let (arg_0 , arg_1) : (u32 , u32) = "));
    assert!(tuple.render().contains("__t_impl (arg_0 , arg_1) ;"));
}

#[test]
fn serializing_matches_serde_json() {
    let v = CanonicalValue::Object(vec![
        ("a".to_string(), CanonicalValue::Number(Number::Float("1.2".to_string()))),
        (
            "b".to_string(),
            CanonicalValue::Array(vec![
                CanonicalValue::Bool(true),
                CanonicalValue::String("a b".to_string()),
                CanonicalValue::Null,
                num(-7),
            ]),
        ),
    ]);
    assert_eq!(serialize_json(&v).unwrap(), "{\"a\":1.2,\"b\":[true,\"a b\",null,-7]}");
    assert!(serialize_json(&unwritable()).is_err());
}

#[test]
fn a_missing_path_fails_the_case() {
    let path = TypeExpr {
        text: "& Path".to_string(),
        kind: TypeKind::Reference { target: Some("Path".to_string()) },
        span: Span { id: 2 },
    };
    let r = generate_test_set(
        template("t", vec![FnArg::Typed { ty: path }]),
        vec![case(CanonicalValue::String("a.txt".to_string()))],
        ident("t"),
        None,
        &vec!["a.txt".to_string()],
    );
    let err = r.unwrap_err();
    assert_eq!(err.kind, ErrorKind::SourceUnreadable);
    assert_eq!(err.to_string(), "Path not found: a.txt");
}

#[test]
fn no_target_type_without_a_typed_parameter() {
    let r = generate_test_set(
        template("t", vec![FnArg::Receiver { span: Span { id: 9 } }]),
        vec![case(num(1))],
        ident("t"),
        None,
        &Vec::new(),
    );
    let err = r.unwrap_err();
    assert_eq!(err.kind, ErrorKind::UntypedReceiver);
    assert!(err.to_string().contains("Could not infer type"));
    let tuple = generate_test_set(
        template(
            "t",
            vec![
                FnArg::Typed { ty: path_type("u32", "u32") },
                FnArg::Typed { ty: path_type("String", "String") },
            ],
        ),
        vec![case(CanonicalValue::Array(vec![num(1), CanonicalValue::String("a".to_string())]))],
        ident("t"),
        None,
        &Vec::new(),
    )
    .unwrap();
    assert_eq!(tuple.tests[0].type_text, "(u32 , String)");
    assert!(tuple.tests[0].is_tuple);
    assert_eq!(tuple.tests[0].arg_count, 2);
}

#[test]
fn only_a_path_template_has_paths_to_check() {
    let path = TypeExpr {
        text: "PathBuf".to_string(),
        kind: TypeKind::Path { last: Some("PathBuf".to_string()) },
        span: Span { id: 2 },
    };
    let cases = || {
        vec![
            case(CanonicalValue::String("a.txt".to_string())),
            case(num(1)),
            case(CanonicalValue::String("b.txt".to_string())),
        ]
    };
    let with_path = Prepared {
        input_fn: template("t", vec![FnArg::Typed { ty: path }]),
        cases: cases(),
        explicit_type: None,
    };
    assert_eq!(with_path.paths_to_check(), vec!["a.txt", "b.txt"]);
    let err = with_path.generate(&vec!["b.txt".to_string()]).unwrap_err();
    assert_eq!(err.to_string(), "Path not found: b.txt");
    let without = Prepared {
        input_fn: template("t", vec![FnArg::Typed { ty: path_type("String", "String") }]),
        cases: cases(),
        explicit_type: None,
    };
    assert!(without.paths_to_check().is_empty());
    assert_eq!(without.generate(&vec!["b.txt".to_string()]).unwrap().tests.len(), 3);

    let t = build_single_test(&ident("t"), "__t_impl", &case(num(7)), Some(2), "u8", false, 1, "7".to_string());
    assert_eq!(t.name, "t__7");
    assert_eq!(t.doc, "Generated test t #2");
    assert_eq!(t.json, "7");
    let f = serialization_failed(&ident("t"), Some(2), "why");
    assert_eq!(f.to_string(), "Failed to serialize JSON at index 2: why");
    assert_eq!(serialization_failed(&ident("t"), None, "why").to_string(), "Failed to serialize JSON: why");
}
