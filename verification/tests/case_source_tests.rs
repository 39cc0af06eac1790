use rust_test_core::error::{Failure, Span};
use rust_test_core::expand::{test_case_source, Fetched, SourceExpansion};
use rust_test_core::source::{
    GenericArg, LitStr, PathArguments, PathSegment, SourceArg, SourceCall,
};
use rust_test_core::template::{FnArg, Ident, Item, TestTemplate, TypeExpr, TypeKind};

fn ident(name: &str) -> Ident {
    Ident { name: name.to_string(), span: Span { id: 1 } }
}

fn path_type(text: &str, last: &str) -> TypeExpr {
    TypeExpr {
        text: text.to_string(),
        kind: TypeKind::Path { last: Some(last.to_string()) },
        span: Span { id: 2 },
    }
}

fn my_test(inputs: Vec<FnArg>) -> Item {
    Item::Fn(TestTemplate {
        ident: ident("my_test"),
        inputs,
        inputs_span: Span { id: 3 },
        attrs: Vec::new(),
        body: Vec::new(),
    })
}

fn typed(text: &str, last: &str) -> Vec<FnArg> {
    vec![FnArg::Typed { ty: path_type(text, last) }]
}

fn lit(text: &str) -> SourceArg {
    SourceArg::Str(LitStr { value: text.to_string(), span: Span { id: 5 } })
}

fn call(kind: &str, arguments: PathArguments, args: Vec<SourceArg>) -> SourceCall {
    SourceCall {
        segments: vec![PathSegment { ident: ident(kind), arguments }],
        span: Span { id: 4 },
        args: Some(args),
        end: Span { id: 6 },
    }
}

fn json_file(path: &str) -> SourceCall {
    call("JsonFile", PathArguments::Plain, vec![lit(path)])
}

fn read(content: &str) -> Fetched {
    Fetched::FileRead { full_path: "/project/data.json".to_string(), content: content.to_string() }
}

fn expand(attr: SourceCall, item: Item, fetched: Fetched) -> Result<SourceExpansion, Failure> {
    test_case_source(&attr, item, fetched, &Vec::new())
}

const USERS: &str = "[{\"name\":\"Alice\",\"age\":30},{\"name\":\"Bob\",\"age\":25}]";
const DDT: &str = "../rust_test_framework/tests/test_ddt_data.json";

#[test]
fn test_test_case_source_errors() {
    let attr = call("InvalidSource", PathArguments::Plain, vec![lit("path")]);
    let result = expand(attr, my_test(typed("u32", "u32")), Fetched::NotNeeded);
    assert!(result.is_err());
    assert!(result
        .unwrap_err()
        .to_string()
        .contains("Expected [`rust_test::SourceType`] variant"));

    let result = expand(json_file(DDT), my_test(Vec::new()), read(USERS));
    assert!(result.is_err());
    assert!(result
        .unwrap_err()
        .to_string()
        .contains("test generation from source supports only 1 type in parameters"));

    let two = vec![
        FnArg::Typed { ty: path_type("u32", "u32") },
        FnArg::Typed { ty: path_type("u32", "u32") },
    ];
    let result = expand(json_file(DDT), my_test(two), read(USERS));
    assert!(result.is_err());
    assert!(result
        .unwrap_err()
        .to_string()
        .contains("test generation from source supports only 1 type in parameters"));

    let missing = Fetched::FileUnreadable {
        full_path: "/project/non_existent.json".to_string(),
        cause: "No such file or directory (os error 2)".to_string(),
    };
    let result = expand(json_file("non_existent.json"), my_test(typed("u32", "u32")), missing);
    assert!(result.is_err());
    assert!(result.unwrap_err().to_string().contains("Could not read file"));

    let attr = call(
        "JsonFile",
        PathArguments::Plain,
        vec![lit(DDT), SourceArg::Type(path_type("User", "User"))],
    );
    let result = expand(attr, my_test(typed("User", "User")), read(USERS));
    assert!(result.is_ok());

    let turbofish = PathArguments::AngleBracketed {
        args: vec![GenericArg::Type(path_type("User", "User"))],
        span: Span { id: 7 },
    };
    let result = expand(call("JsonFile", turbofish, vec![lit(DDT)]), my_test(typed("User", "User")), read(USERS));
    assert!(result.is_ok());
}

#[test]
fn test_case_source_tests_test_more_errors() {
    let item = my_test(vec![FnArg::Receiver { span: Span { id: 8 } }]);
    let result = expand(json_file(DDT), item, read(USERS));
    assert!(result.is_err());
    assert!(result
        .unwrap_err()
        .to_string()
        .contains("test generation from source supports only 1 type in parameters"));

    let array = TypeExpr { text: "[u32 ; 1]".to_string(), kind: TypeKind::Other, span: Span { id: 2 } };
    let result = expand(json_file(DDT), my_test(vec![FnArg::Typed { ty: array }]), read(USERS));
    assert!(result.is_ok());
}

#[test]
fn test_case_source_tests_test_invalid_json() {
    let attr = json_file("tests/test_data/invalid.json");
    let result = expand(attr, my_test(typed("u32", "u32")), read("{ not json"));
    assert!(result.is_err());
    assert!(result.unwrap_err().to_string().contains("Could not parse JSON file"));
}

#[test]
fn test_case_source_tests_test_value_variants_coverage() {
    let attr = json_file("../rust_test_framework/tests/test_null.json");
    let result = expand(attr, my_test(typed("Option < u32 >", "Option")), read("[null]"));
    assert!(result.is_ok());
    assert!(result.unwrap().set.render().contains("my_test__null"));

    let attr = json_file("../rust_test_framework/tests/test_bool.json");
    let result = expand(attr, my_test(typed("bool", "bool")), read("[true, false]"));
    assert!(result.is_ok());
    let res_str = result.unwrap().set.render();
    assert!(res_str.contains("my_test__true"));
    assert!(res_str.contains("my_test__false"));

    let attr = json_file("tests/test_data/test_single_bool.json");
    let result = expand(attr, my_test(typed("bool", "bool")), read("true"));
    assert!(result.is_ok());
    let res_str = result.unwrap().set.render();
    assert!(res_str.contains("fn my_test__true"));
}

#[test]
fn test_case_source_tests_test_empty_suffix_variants() {
    let attr = json_file("../rust_test_framework/tests/test_empty_suffix.json");
    let result = expand(attr, my_test(typed("String", "String")), read("[\" \", \"!!\", \"\"]"));
    assert!(result.is_ok());
    let res_str = result.unwrap().set.render();
    assert!(res_str.contains("my_test___"));
    assert!(res_str.contains("my_test____"));
    assert!(res_str.contains("my_test_2"));
}

#[test]
fn test_case_source_tests_test_source_type_parsing_errors() {
    let item = || my_test(typed("User", "User"));
    let two = PathArguments::AngleBracketed {
        args: vec![
            GenericArg::Type(path_type("User", "User")),
            GenericArg::Type(path_type("Another", "Another")),
        ],
        span: Span { id: 7 },
    };
    let result = expand(call("JsonFile", two, vec![lit(DDT)]), item(), read(USERS));
    assert!(result.is_err());
    assert!(result.unwrap_err().to_string().contains("Expected exactly one type argument"));

    let none = PathArguments::AngleBracketed { args: Vec::new(), span: Span { id: 7 } };
    let result = expand(call("JsonFile", none, vec![lit(DDT)]), item(), read(USERS));
    assert!(result.is_err());
    assert!(result.unwrap_err().to_string().contains("Expected exactly one type argument"));

    let constant = PathArguments::AngleBracketed { args: vec![GenericArg::Other], span: Span { id: 7 } };
    let result = expand(call("JsonFile", constant, vec![lit(DDT)]), item(), read(USERS));
    assert!(result.is_err());
    assert!(result.unwrap_err().to_string().contains("Expected a type argument"));

    let attr = call("UnknownVariant", PathArguments::Plain, vec![lit("path")]);
    let result = expand(attr, item(), Fetched::NotNeeded);
    assert!(result.is_err());
    assert!(result.unwrap_err().to_string().contains("Unknown variant"));

    let other = call("JsonString", PathArguments::Plain, vec![lit("[1]")]);
    let result = expand(other, item(), Fetched::NotNeeded);
    assert!(result.unwrap_err().to_string().contains("Unknown variant"));
}

#[test]
fn test_case_source_tests_test_is_vec_cases() {
    let attr = json_file("../rust_test_framework/tests/test_vec_of_vec.json");
    let result = expand(attr, my_test(typed("Vec < u32 >", "Vec")), read("[[1,2],[3,4]]"));
    assert!(result.is_ok());
    assert_eq!(result.unwrap().set.tests.len(), 2);

    let attr = json_file("../rust_test_framework/tests/test_single_vec.json");
    let result = expand(attr, my_test(typed("Vec < u32 >", "Vec")), read("[1,2,3]"));
    assert!(result.is_ok());
    assert_eq!(result.unwrap().set.tests.len(), 1);
}

#[test]
fn test_case_source_tests_test_comprehensive_coverage() {
    let attr = json_file("tests/test_data/test_all_variants.json");
    let item = my_test(typed("serde_json :: Value", "Value"));
    let result = expand(attr, item, read("{\"a\": 1.2, \"b\": [true, \"a b\"]}"));
    assert!(result.is_ok());
    let res_str = result.unwrap().set.render();
    assert!(res_str.contains("my_test__1_2_true_a_b"));
}

#[test]
fn test_case_source_tests_test_single_empty_suffix() {
    let attr = json_file("tests/test_data/test_single_empty.json");
    let result = expand(attr, my_test(typed("String", "String")), read("\"\""));
    assert!(result.is_ok());
    let expanded = result.unwrap();
    assert!(expanded.set.render().contains("fn my_test ()"));
    assert_eq!(expanded.data_const.unwrap().name, "MY_TEST_DATA");
}
