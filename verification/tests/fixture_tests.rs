use rust_test_core::error::{ErrorKind, Span};
use rust_test_core::expand::{test_params_source, Fetched};
use rust_test_core::fixture::{
    has_attribute, is_test, next_action, process_mod, run_plan, setup, teardown, test_fixture,
    Action, RunPlan,
};
use rust_test_core::params::{test_params, ParamArg, ParamsCall};
use rust_test_core::source::{LitStr, PathArguments, PathSegment, SourceArg, SourceCall};
use rust_test_core::syntax::{Expr, Lit, LitKind};
use rust_test_core::template::{
    Attribute, FnArg, GroupDeclaration, Ident, Item, Stmt, TestTemplate, TypeExpr, TypeKind,
};
use std::cell::Cell;

fn ident(name: &str) -> Ident {
    Ident { name: name.to_string(), span: Span { id: 1 } }
}

fn function(name: &str, attr: &[&str], body: &[&str]) -> TestTemplate {
    TestTemplate {
        ident: ident(name),
        inputs: Vec::new(),
        inputs_span: Span { id: 2 },
        attrs: vec![Attribute { path: attr.iter().map(|s| s.to_string()).collect() }],
        body: body.iter().map(|s| Stmt::Source(s.to_string())).collect(),
    }
}

fn group(name: &str, items: Vec<Item>) -> Item {
    Item::Mod(GroupDeclaration { ident: ident(name), content: Some(items) })
}

fn plan_of(woven: &GroupDeclaration, test: &str) -> RunPlan {
    for item in woven.content.as_ref().unwrap() {
        if let Item::Fn(f) = item {
            if f.ident.name == test {
                return run_plan(f);
            }
        }
    }
    panic!("no test named {}", test)
}

/// Runs one woven test: each step is one call, a failed step returns its cause.
fn run(
    plan: &RunPlan,
    setup: &dyn Fn() -> Result<(), String>,
    body: &dyn Fn() -> Result<(), String>,
    teardown: &dyn Fn() -> Result<(), String>,
) -> Result<(), String> {
    let mut history: Vec<Option<String>> = Vec::new();
    loop {
        match next_action(plan, &history) {
            Action::RunSetup => history.push(setup().err()),
            Action::RunBody => history.push(body().err()),
            Action::RunTeardown => history.push(teardown().err()),
            Action::Pass => return Ok(()),
            Action::Fail(message) => return Err(message),
        }
    }
}

fn counting_fixture() -> GroupDeclaration {
    test_fixture(group(
        "tests",
        vec![
            Item::Fn(function("my_setup", &["setup"], &["SETUP_COUNT . fetch_add (1) ;"])),
            Item::Fn(function("my_teardown", &["teardown"], &["TEARDOWN_COUNT . fetch_add (1) ;"])),
            Item::Fn(function("test_setup_called", &["test"], &["assert ! (SETUP_COUNT > 0) ;"])),
            Item::Fn(function("test_setup_called_again", &["test"], &["assert ! (SETUP_COUNT > 0) ;"])),
            Item::Fn(function("test_dummy", &["test"], &[])),
        ],
    ))
    .unwrap()
}

fn check_setup_ran_before(test: &str) {
    let woven = counting_fixture();
    let plan = plan_of(&woven, test);
    assert_eq!(plan.setup.as_deref(), Some("my_setup"));
    assert_eq!(plan.teardown.as_deref(), Some("my_teardown"));
    let setup_count = Cell::new(0u32);
    let teardown_count = Cell::new(0u32);
    let outcome = run(
        &plan,
        &|| {
            setup_count.set(setup_count.get() + 1);
            Ok(())
        },
        &|| {
            if setup_count.get() > 0 && teardown_count.get() == 0 {
                Ok(())
            } else {
                Err("setup did not run first".to_string())
            }
        },
        &|| {
            teardown_count.set(teardown_count.get() + 1);
            Ok(())
        },
    );
    assert_eq!(outcome, Ok(()));
    assert!(setup_count.get() > 0);
    assert_eq!(teardown_count.get(), 1);
}

#[test]
fn test_setup_called() {
    check_setup_ran_before("test_setup_called");
}

#[test]
fn test_setup_called_again() {
    check_setup_ran_before("test_setup_called_again");
}

#[test]
fn test_dummy() {
    check_setup_ran_before("test_dummy");
}

fn teardown_only_fixture() -> GroupDeclaration {
    test_fixture(group(
        "tests_teardown_after_fail",
        vec![
            Item::Fn(function("teardown_on_fail", &["teardown"], &[])),
            Item::Fn(function("test_panics", &["test"], &["panic ! (\"test failed\") ;"])),
            Item::Fn(function("test_check_teardown_ran", &["test"], &[])),
        ],
    ))
    .unwrap()
}

#[test]
#[should_panic]
fn test_panics() {
    let woven = teardown_only_fixture();
    let plan = plan_of(&woven, "test_panics");
    let outcome = run(&plan, &|| Ok(()), &|| Err("test failed".to_string()), &|| Ok(()));
    if let Err(message) = outcome {
        panic!("{}", message);
    }
}

#[test]
fn test_check_teardown_ran() {
    let woven = teardown_only_fixture();
    let plan = plan_of(&woven, "test_panics");
    assert_eq!(plan.setup, None);
    let teardown_count = Cell::new(0u32);
    let outcome = run(
        &plan,
        &|| Err("there is no setup".to_string()),
        &|| Err("test failed".to_string()),
        &|| {
            teardown_count.set(teardown_count.get() + 1);
            Ok(())
        },
    );
    assert_eq!(outcome, Err("test failed".to_string()));
    assert_eq!(teardown_count.get(), 1);
}

fn failing_fixture() -> GroupDeclaration {
    test_fixture(group(
        "tests_failure",
        vec![
            Item::Fn(function("failing_setup", &["setup"], &["panic ! (\"intentional failure\") ;"])),
            Item::Fn(function("teardown_not_ran", &["teardown"], &[])),
            Item::Fn(function("test_failing_setup", &["test"], &[])),
        ],
    ))
    .unwrap()
}

#[test]
#[should_panic(expected = "setup failed: intentional failure")]
fn test_failing_setup() {
    let woven = failing_fixture();
    let plan = plan_of(&woven, "test_failing_setup");
    let outcome = run(&plan, &|| Err("intentional failure".to_string()), &|| Ok(()), &|| Ok(()));
    if let Err(message) = outcome {
        panic!("{}", message);
    }
}

#[test]
fn test_verify_no_teardown() {
    let woven = failing_fixture();
    let plan = plan_of(&woven, "test_failing_setup");
    let body_count = Cell::new(0u32);
    let teardown_count = Cell::new(0u32);
    let outcome = run(
        &plan,
        &|| Err("intentional failure".to_string()),
        &|| {
            body_count.set(body_count.get() + 1);
            Ok(())
        },
        &|| {
            teardown_count.set(teardown_count.get() + 1);
            Ok(())
        },
    );
    assert_eq!(outcome, Err("setup failed: intentional failure".to_string()));
    assert_eq!(teardown_count.get(), 0);
    assert_eq!(body_count.get(), 0);
}

#[test]
fn test_without_setup() {
    let items = vec![Item::Fn(function("test_without_setup", &["test"], &["let x = 1 ;"]))];
    let woven = test_fixture(group("tests_no_setup", items)).unwrap();
    match &woven.content.as_ref().unwrap()[0] {
        Item::Fn(f) => {
            assert_eq!(f.body.len(), 1);
            assert!(matches!(&f.body[0], Stmt::Source(s) if s == "let x = 1 ;"));
        }
        _ => panic!("the test is gone"),
    }
    let plan = plan_of(&woven, "test_without_setup");
    assert_eq!(plan.setup, None);
    assert_eq!(plan.teardown, None);
    let outcome = run(
        &plan,
        &|| Err("no setup".to_string()),
        &|| Ok(()),
        &|| Err("no teardown".to_string()),
    );
    assert_eq!(outcome, Ok(()));
}

fn number(digits: &str) -> Expr {
    Expr::Lit { lit: Lit { kind: LitKind::Int(digits.to_string()), span: Span { id: 7 } } }
}

fn u32_template(name: &str, marks: &[&str]) -> TestTemplate {
    TestTemplate {
        ident: ident(name),
        inputs: vec![FnArg::Typed {
            ty: TypeExpr {
                text: "u32".to_string(),
                kind: TypeKind::Path { last: Some("u32".to_string()) },
                span: Span { id: 3 },
            },
        }],
        inputs_span: Span { id: 2 },
        attrs: marks.iter().map(|m| Attribute { path: vec![m.to_string()] }).collect(),
        body: vec![Stmt::Source("assert ! (val > 0) ;".to_string())],
    }
}

fn taken(woven: &mut GroupDeclaration, name: &str) -> TestTemplate {
    let items = woven.content.as_mut().unwrap();
    let at = items
        .iter()
        .position(|item| matches!(item, Item::Fn(f) if f.ident.name == name))
        .unwrap();
    match items.remove(at) {
        Item::Fn(f) => f,
        _ => unreachable!(),
    }
}

#[test]
fn verify_counts() {
    let items = vec![
        Item::Fn(function("set_up", &["setup"], &[])),
        Item::Fn(function("tear_down", &["teardown"], &[])),
        Item::Fn(u32_template("test_in_fixture", &["test_params", "test_params", "test_params"])),
        Item::Fn(u32_template("test_in_fixture_sourced", &["test_params_source"])),
        Item::Fn(function("verify_counts", &["test"], &[])),
    ];
    let mut woven = test_fixture(group("fixture_with_test_params", items)).unwrap();

    let mut plans: Vec<(String, RunPlan)> = Vec::new();
    let mut template = taken(&mut woven, "test_in_fixture");
    for digits in ["1", "2", "3"] {
        let call = ParamsCall { args: vec![ParamArg::Single(number(digits))], span: Span { id: 8 } };
        let set = test_params(&call, Item::Fn(template), &Vec::new()).unwrap();
        for t in &set.tests {
            assert_eq!(t.impl_name, set.implementation.ident.name);
            plans.push((t.name.clone(), run_plan(&set.implementation)));
        }
        template = set.implementation;
    }
    let source = SourceCall {
        segments: vec![PathSegment { ident: ident("JsonString"), arguments: PathArguments::Plain }],
        span: Span { id: 4 },
        args: Some(vec![SourceArg::Str(LitStr { value: "[4]".to_string(), span: Span { id: 5 } })]),
        end: Span { id: 6 },
    };
    let sourced = test_params_source(
        &source,
        Item::Fn(taken(&mut woven, "test_in_fixture_sourced")),
        Fetched::NotNeeded,
        &Vec::new(),
    )
    .unwrap();
    for t in &sourced.set.tests {
        plans.push((t.name.clone(), run_plan(&sourced.set.implementation)));
    }
    let names: Vec<&str> = plans.iter().map(|p| p.0.as_str()).collect();
    assert_eq!(
        names,
        vec![
            "test_in_fixture__1",
            "test_in_fixture__2",
            "test_in_fixture__3",
            "test_in_fixture_sourced__4"
        ]
    );

    let setup_count = Cell::new(0u32);
    let teardown_count = Cell::new(0u32);
    let count_setup = || {
        setup_count.set(setup_count.get() + 1);
        Ok(())
    };
    let count_teardown = || {
        teardown_count.set(teardown_count.get() + 1);
        Ok(())
    };
    for (_, plan) in &plans {
        assert_eq!(plan.setup.as_deref(), Some("set_up"));
        assert_eq!(plan.teardown.as_deref(), Some("tear_down"));
        let before = setup_count.get();
        let body = || {
            if setup_count.get() > before {
                Ok(())
            } else {
                Err("setup did not run".to_string())
            }
        };
        assert_eq!(run(plan, &count_setup, &body, &count_teardown), Ok(()));
    }
    let plan = plan_of(&woven, "verify_counts");
    let seen = Cell::new((0u32, 0u32));
    let outcome = run(
        &plan,
        &count_setup,
        &|| {
            seen.set((setup_count.get(), teardown_count.get()));
            Ok(())
        },
        &count_teardown,
    );
    assert_eq!(outcome, Ok(()));
    assert_eq!(seen.get().0, 5);
    assert_eq!(seen.get().1, 4);
    assert_eq!(setup_count.get(), teardown_count.get());
}

#[test]
fn three_generated_cases_pair_setup_with_teardown() {
    let items = vec![
        Item::Fn(function("s", &["setup"], &[])),
        Item::Fn(function("d", &["teardown"], &[])),
        Item::Fn(u32_template("t", &["test_params", "test_params", "test_params"])),
    ];
    let mut woven = test_fixture(group("g", items)).unwrap();
    let mut template = taken(&mut woven, "t");
    assert!(is_test(&template));
    let counter = Cell::new(0i32);
    let setups = Cell::new(0u32);
    let teardowns = Cell::new(0u32);
    for digits in ["1", "2", "3"] {
        let call = ParamsCall { args: vec![ParamArg::Single(number(digits))], span: Span { id: 8 } };
        let set = test_params(&call, Item::Fn(template), &Vec::new()).unwrap();
        let plan = run_plan(&set.implementation);
        let outcome = run(
            &plan,
            &|| {
                counter.set(counter.get() + 1);
                setups.set(setups.get() + 1);
                Ok(())
            },
            &|| if counter.get() == 1 { Ok(()) } else { Err("unpaired".to_string()) },
            &|| {
                counter.set(counter.get() - 1);
                teardowns.set(teardowns.get() + 1);
                Ok(())
            },
        );
        assert_eq!(outcome, Ok(()));
        template = set.implementation;
    }
    assert_eq!(setups.get(), 3);
    assert_eq!(teardowns.get(), 3);
    assert_eq!(counter.get(), 0);
    let plain = u32_template("helper", &["inline"]);
    assert!(!is_test(&plain));
    assert!(is_test(&u32_template("a", &["test_params_source"])));
}

#[test]
fn a_second_hook_is_refused() {
    let items = vec![
        Item::Fn(function("a", &["setup"], &[])),
        Item::Fn(function("b", &["rust_test_framework", "setup"], &[])),
    ];
    let err = test_fixture(group("g", items)).unwrap_err();
    assert_eq!(err.kind, ErrorKind::DuplicateHook);
    assert_eq!(err.to_string(), "Only one function can be marked with `#[setup]` in a fixture.");
    let items = vec![
        Item::Fn(function("a", &["teardown"], &[])),
        Item::Fn(function("b", &["teardown"], &[])),
    ];
    let err = test_fixture(group("g", items)).unwrap_err();
    assert_eq!(err.kind, ErrorKind::DuplicateHook);
    assert_eq!(err.to_string(), "Only one function can be marked with `#[teardown]` in a fixture.");
}

#[test]
fn only_a_module_with_a_body_is_a_fixture() {
    let err = test_fixture(Item::Fn(function("f", &["test"], &[]))).unwrap_err();
    assert_eq!(err.kind, ErrorKind::InvalidParameterKind);
    assert_eq!(err.to_string(), "The `#[test_fixture]` attribute can only be applied to a module.");
    let mut outline = GroupDeclaration { ident: ident("m"), content: None };
    let err = process_mod(&mut outline).unwrap_err();
    assert!(err.to_string().contains("inline module"));
    let err = setup(group("m", Vec::new())).unwrap_err();
    assert_eq!(
        err.to_string(),
        "The `#[setup]` attribute can only be applied to a function within a `#[test_fixture]`."
    );
    let err = teardown(Item::Other { detail: String::new(), span: Span { id: 0 } }).unwrap_err();
    assert_eq!(
        err.to_string(),
        "The `#[teardown]` attribute can only be applied to a function within a `#[test_fixture]`."
    );
    assert_eq!(setup(Item::Fn(function("f", &["setup"], &[]))).unwrap().ident.name, "f");
    assert_eq!(teardown(Item::Fn(function("f", &["teardown"], &[]))).unwrap().ident.name, "f");
}

#[test]
fn weaving_guards_setup_and_body() {
    let items = vec![
        Item::Fn(function("s", &["setup"], &[])),
        Item::Fn(function("t", &["teardown"], &[])),
        Item::Fn(function("case", &["test_case_source"], &["a ;", "b ;"])),
        Item::Fn(function("helper", &["inline"], &["c ;"])),
    ];
    let woven = test_fixture(group("g", items)).unwrap();
    let content = woven.content.unwrap();
    match &content[2] {
        Item::Fn(f) => {
            assert!(is_test(f));
            assert!(!has_attribute(f, "setup"));
            assert_eq!(f.body.len(), 2);
            assert!(matches!(&f.body[0], Stmt::GuardedSetup { hook } if hook == "s"));
            match &f.body[1] {
                Stmt::GuardedBody { body, teardown } => {
                    assert_eq!(teardown, "t");
                    assert_eq!(body.len(), 2);
                }
                _ => panic!("the body is not guarded"),
            }
        }
        _ => panic!("the test is gone"),
    }
    match &content[3] {
        Item::Fn(f) => assert!(matches!(&f.body[0], Stmt::Source(s) if s == "c ;")),
        _ => panic!("the helper is gone"),
    }
}

#[test]
fn a_failing_teardown_fails_the_test() {
    let plan = RunPlan { setup: None, teardown: Some("t".to_string()) };
    let outcome = run(&plan, &|| Ok(()), &|| Err("body".to_string()), &|| Err("teardown".to_string()));
    assert_eq!(outcome, Err("teardown".to_string()));
    let history = vec![None];
    assert_eq!(next_action(&plan, &history), Action::RunTeardown);
    assert_eq!(next_action(&plan, &Vec::new()), Action::RunBody);
}
