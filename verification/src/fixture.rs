//! The group hook weaver: setup and teardown around every test of a group.

use crate::error::{failure, ErrorKind, Failure, FailureView};
use crate::template::{Attribute, GroupDeclaration, Ident, Item, Stmt, TestTemplate};
use crate::text::{join, same_text};
use vstd::prelude::*;

verus! {

/// Whether the last segment of an attribute's path is `name`.
pub open spec fn attribute_named(attr: Attribute, name: Seq<char>) -> bool {
    attr.path.len() > 0 && attr.path@.last()@ == name
}

/// Whether one of the attributes is named `name`.
pub open spec fn marked(attrs: Seq<Attribute>, name: Seq<char>) -> bool {
    exists|i: int| 0 <= i < attrs.len() && attribute_named(#[trigger] attrs[i], name)
}

/// Whether a function is a test of its group: a test itself, or a
/// template whose generated tests run its body, marked `test_params`,
/// `test_params_source` or `test_case_source`.
pub open spec fn test_marked(attrs: Seq<Attribute>) -> bool {
    marked(attrs, "test"@) || marked(attrs, "test_case_source"@) || marked(
        attrs,
        "test_params"@,
    ) || marked(attrs, "test_params_source"@)
}

/// Whether a function carries the attribute `attr_name`, by the last
/// segment of the attribute's path.
pub fn has_attribute(item_fn: &TestTemplate, attr_name: &str) -> (r: bool)
    ensures
        r == marked(item_fn.attrs@, attr_name@),
{
    let mut i: usize = 0;
    while i < item_fn.attrs.len()
        invariant
            i <= item_fn.attrs.len(),
            forall|j: int| 0 <= j < i ==> !attribute_named(#[trigger] item_fn.attrs[j], attr_name@),
        decreases item_fn.attrs.len() - i,
    {
        let path = &item_fn.attrs[i].path;
        if path.len() > 0 && same_text(path[path.len() - 1].as_str(), attr_name) {
            return true;
        }
        i = i + 1;
    }
    false
}

/// Whether a function is a test.
pub fn is_test(item_fn: &TestTemplate) -> (r: bool)
    ensures
        r == test_marked(item_fn.attrs@),
{
    has_attribute(item_fn, "test") || has_attribute(item_fn, "test_case_source") || has_attribute(
        item_fn,
        "test_params",
    ) || has_attribute(item_fn, "test_params_source")
}

/// The name of a hook, as mathematical content.
pub open spec fn hook_view(hook: Option<Ident>) -> Option<Seq<char>> {
    match hook {
        Some(ident) => Some(ident.name@),
        None => None,
    }
}

/// The body of a test with the hooks woven in: the guarded setup first,
/// if there is one; then the statements, guarded and followed by the
/// teardown if there is one, else as they were.
pub open spec fn woven(
    body: Seq<Stmt>,
    setup: Option<Seq<char>>,
    teardown: Option<Seq<char>>,
    result: Seq<Stmt>,
) -> bool {
    let offset: int = if setup is Some {
        1
    } else {
        0
    };
    &&& setup matches Some(name) ==> result.len() > 0 && (result[0] matches Stmt::GuardedSetup {
        hook,
    } && hook@ == name)
    &&& match teardown {
        Some(name) => result.len() == offset + 1 && (result[offset] matches Stmt::GuardedBody {
            body: inner,
            teardown: hook,
        } && inner@ == body && hook@ == name),
        None => result == if setup is Some {
            seq![result[0]] + body
        } else {
            body
        },
    }
}

/// Weaves the hooks into the body of a test.
pub fn inject_setup_teardown_calls(
    item_fn: &mut TestTemplate,
    setup_fn_name: &Option<Ident>,
    teardown_fn_name: &Option<Ident>,
)
    ensures
        woven(
            old(item_fn).body@,
            hook_view(*setup_fn_name),
            hook_view(*teardown_fn_name),
            final(item_fn).body@,
        ),
        final(item_fn).ident == old(item_fn).ident,
        final(item_fn).inputs == old(item_fn).inputs,
        final(item_fn).inputs_span == old(item_fn).inputs_span,
        final(item_fn).attrs == old(item_fn).attrs,
{
    let ghost before = item_fn.body@;
    let mut body: Vec<Stmt> = Vec::new();
    std::mem::swap(&mut body, &mut item_fn.body);
    let mut stmts: Vec<Stmt> = Vec::new();
    match setup_fn_name {
        Some(ident) => {
            stmts.push(Stmt::GuardedSetup { hook: ident.name.clone() });
        },
        None => {},
    }
    let ghost head = stmts@;
    match teardown_fn_name {
        Some(ident) => {
            stmts.push(Stmt::GuardedBody { body, teardown: ident.name.clone() });
        },
        None => {
            stmts.append(&mut body);
            assert(stmts@ =~= head + before);
        },
    }
    item_fn.body = stmts;
}

/// The message for a second function with the same hook attribute.
pub open spec fn duplicate_hook_message(hook: Seq<char>) -> Seq<char> {
    "Only one function can be marked with `#["@ + hook + "]` in a fixture."@
}

/// The failure for a second function marked as the same hook.
pub open spec fn duplicate_hook(hook: Seq<char>, at: Ident) -> FailureView {
    failure(ErrorKind::DuplicateHook, duplicate_hook_message(hook), at.span)
}

/// The hooks found among the first `n` items: the function marked `setup`
/// and the one marked `teardown`. A second function with either mark fails.
pub open spec fn hooks_among(items: Seq<Item>, n: int) -> Result<
    (Option<Ident>, Option<Ident>),
    FailureView,
>
    decreases n,
{
    if n <= 0 {
        Ok((None, None))
    } else {
        match hooks_among(items, n - 1) {
            Err(f) => Err(f),
            Ok((setup, teardown)) => match items[n - 1] {
                Item::Fn(f) => if marked(f.attrs@, "setup"@) && setup is Some {
                    Err(duplicate_hook("setup"@, f.ident))
                } else if marked(f.attrs@, "teardown"@) && teardown is Some {
                    Err(duplicate_hook("teardown"@, f.ident))
                } else {
                    Ok(
                        (
                            if marked(f.attrs@, "setup"@) {
                                Some(f.ident)
                            } else {
                                setup
                            },
                            if marked(f.attrs@, "teardown"@) {
                                Some(f.ident)
                            } else {
                                teardown
                            },
                        ),
                    )
                },
                _ => Ok((setup, teardown)),
            },
        }
    }
}

/// Whether `after` is `before` with the hooks woven in where it is a test,
/// and `before` itself where it is not.
pub open spec fn item_woven(
    before: Item,
    after: Item,
    setup: Option<Seq<char>>,
    teardown: Option<Seq<char>>,
) -> bool {
    match before {
        Item::Fn(f) => if test_marked(f.attrs@) {
            after matches Item::Fn(g) && g.ident == f.ident && g.inputs == f.inputs
                && g.inputs_span == f.inputs_span && g.attrs == f.attrs && woven(
                f.body@,
                setup,
                teardown,
                g.body@,
            )
        } else {
            after == before
        },
        _ => after == before,
    }
}

fn copy_ident(ident: &Ident) -> (r: Ident)
    ensures
        r == *ident,
{
    Ident { name: ident.name.clone(), span: ident.span }
}

fn find_hooks(items: &Vec<Item>) -> (r: Result<(Option<Ident>, Option<Ident>), Failure>)
    ensures
        match r {
            Ok(found) => hooks_among(items@, items.len() as int) == Ok::<
                (Option<Ident>, Option<Ident>),
                FailureView,
            >(found),
            Err(f) => hooks_among(items@, items.len() as int) == Err::<
                (Option<Ident>, Option<Ident>),
                FailureView,
            >(f@),
        },
{
    let mut setup: Option<Ident> = None;
    let mut teardown: Option<Ident> = None;
    let mut i: usize = 0;
    while i < items.len()
        invariant
            i <= items.len(),
            hooks_among(items@, i as int) == Ok::<(Option<Ident>, Option<Ident>), FailureView>(
                (setup, teardown),
            ),
        decreases items.len() - i,
    {
        match &items[i] {
            Item::Fn(f) => {
                if has_attribute(f, "setup") {
                    if setup.is_some() {
                        proof {
                            lemma_hooks_failure_stays(items@, i + 1, items.len() as int);
                        }
                        return Err(
                            Failure::new(
                                ErrorKind::DuplicateHook,
                                join(
                                    join("Only one function can be marked with `#[".to_owned(), "setup"),
                                    "]` in a fixture.",
                                ),
                                f.ident.span,
                            ),
                        );
                    }
                    setup = Some(copy_ident(&f.ident));
                }
                if has_attribute(f, "teardown") {
                    if teardown.is_some() {
                        proof {
                            lemma_hooks_failure_stays(items@, i + 1, items.len() as int);
                        }
                        return Err(
                            Failure::new(
                                ErrorKind::DuplicateHook,
                                join(
                                    join(
                                        "Only one function can be marked with `#[".to_owned(),
                                        "teardown",
                                    ),
                                    "]` in a fixture.",
                                ),
                                f.ident.span,
                            ),
                        );
                    }
                    teardown = Some(copy_ident(&f.ident));
                }
            },
            _ => {},
        }
        i = i + 1;
    }
    Ok((setup, teardown))
}

/// A failure among the first `n` items is the failure of any longer stretch.
pub proof fn lemma_hooks_failure_stays(items: Seq<Item>, n: int, m: int)
    requires
        hooks_among(items, n) is Err,
        n <= m,
    ensures
        hooks_among(items, m) == hooks_among(items, n),
    decreases m - n,
{
    if n < m {
        lemma_hooks_failure_stays(items, n, m - 1);
    }
}

/// Whether `after` is the list `before` with the hooks woven into every test.
pub open spec fn items_woven(
    before: Seq<Item>,
    after: Seq<Item>,
    setup: Option<Seq<char>>,
    teardown: Option<Seq<char>>,
) -> bool {
    &&& after.len() == before.len()
    &&& forall|i: int|
        0 <= i < before.len() ==> item_woven(before[i], #[trigger] after[i], setup, teardown)
}

fn weave_items(items: Vec<Item>, setup: &Option<Ident>, teardown: &Option<Ident>) -> (r: Vec<Item>)
    ensures
        items_woven(items@, r@, hook_view(*setup), hook_view(*teardown)),
{
    let mut out: Vec<Item> = Vec::new();
    for item in it: items
        invariant
            it.seq() == items@,
            out.len() == it.index(),
            forall|i: int|
                0 <= i < out.len() ==> item_woven(
                    items@[i],
                    #[trigger] out[i],
                    hook_view(*setup),
                    hook_view(*teardown),
                ),
    {
        let next = match item {
            Item::Fn(f) => {
                let mut f = f;
                if is_test(&f) {
                    inject_setup_teardown_calls(&mut f, setup, teardown);
                }
                Item::Fn(f)
            },
            other => other,
        };
        out.push(next);
    }
    out
}

/// The message for a fixture attribute on a module without a body.
pub open spec fn not_inline_message() -> Seq<char> {
    "The `#[test_fixture]` attribute can only be applied to an inline module (with `{ ... }`)."@
}

/// Weaves the hooks of a group into its tests. The first pass finds the
/// hooks and refuses a second setup or teardown; the second pass rewrites
/// every test. A group without hooks is left as it is.
pub fn process_mod(item_mod: &mut GroupDeclaration) -> (r: Result<(), Failure>)
    ensures
        final(item_mod).ident == old(item_mod).ident,
        match old(item_mod).content {
            None => r matches Err(f) && f@ == failure(
                ErrorKind::InvalidParameterKind,
                not_inline_message(),
                old(item_mod).ident.span,
            ) && final(item_mod).content is None,
            Some(items) => match hooks_among(items@, items.len() as int) {
                Err(f) => r matches Err(e) && e@ == f && final(item_mod).content == Some(items),
                Ok((setup, teardown)) => r is Ok && (final(item_mod).content matches Some(after)
                    && if setup is None && teardown is None {
                    after == items
                } else {
                    items_woven(items@, after@, hook_view(setup), hook_view(teardown))
                }),
            },
        },
{
    let items = match item_mod.content.take() {
        Some(items) => items,
        None => {
            return Err(
                Failure::with_text(
                    ErrorKind::InvalidParameterKind,
                    "The `#[test_fixture]` attribute can only be applied to an inline module (with `{ ... }`).",
                    item_mod.ident.span,
                ),
            );
        },
    };
    let (setup, teardown) = match find_hooks(&items) {
        Ok(found) => found,
        Err(f) => {
            item_mod.content = Some(items);
            return Err(f);
        },
    };
    if setup.is_none() && teardown.is_none() {
        item_mod.content = Some(items);
        return Ok(());
    }
    let woven_items = weave_items(items, &setup, &teardown);
    item_mod.content = Some(woven_items);
    Ok(())
}

/// The message for a fixture attribute on anything but a module.
pub open spec fn not_a_module_message() -> Seq<char> {
    "The `#[test_fixture]` attribute can only be applied to a module."@
}

/// Where an item stands.
pub open spec fn item_span(item: Item) -> crate::error::Span {
    match item {
        Item::Fn(f) => f.ident.span,
        Item::Mod(group) => group.ident.span,
        Item::Other { span, .. } => span,
    }
}

/// Expands a fixture: the group with the hooks woven into its tests.
pub fn test_fixture(item: Item) -> (r: Result<GroupDeclaration, Failure>)
    ensures
        match item {
            Item::Mod(group) => match group.content {
                None => r matches Err(f) && f@ == failure(
                    ErrorKind::InvalidParameterKind,
                    not_inline_message(),
                    group.ident.span,
                ),
                Some(items) => match hooks_among(items@, items.len() as int) {
                    Err(f) => r matches Err(e) && e@ == f,
                    Ok((setup, teardown)) => r matches Ok(after) && after.ident == group.ident && (
                    after.content matches Some(woven_items) && if setup is None && teardown is None {
                        woven_items == items
                    } else {
                        items_woven(items@, woven_items@, hook_view(setup), hook_view(teardown))
                    }),
                },
            },
            _ => r matches Err(f) && f@ == failure(
                ErrorKind::InvalidParameterKind,
                not_a_module_message(),
                item_span(item),
            ),
        },
{
    match item {
        Item::Mod(group) => {
            let mut group = group;
            match process_mod(&mut group) {
                Ok(()) => Ok(group),
                Err(f) => Err(f),
            }
        },
        Item::Fn(f) => Err(
            Failure::with_text(
                ErrorKind::InvalidParameterKind,
                "The `#[test_fixture]` attribute can only be applied to a module.",
                f.ident.span,
            ),
        ),
        Item::Other { detail, span } => Err(
            Failure::with_text(
                ErrorKind::InvalidParameterKind,
                "The `#[test_fixture]` attribute can only be applied to a module.",
                span,
            ),
        ),
    }
}

/// The message for a hook attribute on anything but a function.
pub open spec fn not_a_hook_message(hook: Seq<char>) -> Seq<char> {
    "The `#["@ + hook
        + "]` attribute can only be applied to a function within a `#[test_fixture]`."@
}

fn hook_item(item: Item, hook: &str) -> (r: Result<TestTemplate, Failure>)
    ensures
        match item {
            Item::Fn(f) => r == Ok::<TestTemplate, Failure>(f),
            _ => r matches Err(f) && f@ == failure(
                ErrorKind::InvalidParameterKind,
                not_a_hook_message(hook@),
                item_span(item),
            ),
        },
{
    match item {
        Item::Fn(f) => Ok(f),
        Item::Mod(group) => Err(
            Failure::new(
                ErrorKind::InvalidParameterKind,
                join(
                    join("The `#[".to_owned(), hook),
                    "]` attribute can only be applied to a function within a `#[test_fixture]`.",
                ),
                group.ident.span,
            ),
        ),
        Item::Other { detail, span } => Err(
            Failure::new(
                ErrorKind::InvalidParameterKind,
                join(
                    join("The `#[".to_owned(), hook),
                    "]` attribute can only be applied to a function within a `#[test_fixture]`.",
                ),
                span,
            ),
        ),
    }
}

/// Marks a function as the setup hook of its group: the function is
/// handed back as it is, anything else is refused.
pub fn setup(item: Item) -> (r: Result<TestTemplate, Failure>)
    ensures
        match item {
            Item::Fn(f) => r == Ok::<TestTemplate, Failure>(f),
            _ => r matches Err(f) && f@ == failure(
                ErrorKind::InvalidParameterKind,
                not_a_hook_message("setup"@),
                item_span(item),
            ),
        },
{
    hook_item(item, "setup")
}

/// Marks a function as the teardown hook of its group: the function is
/// handed back as it is, anything else is refused.
pub fn teardown(item: Item) -> (r: Result<TestTemplate, Failure>)
    ensures
        match item {
            Item::Fn(f) => r == Ok::<TestTemplate, Failure>(f),
            _ => r matches Err(f) && f@ == failure(
                ErrorKind::InvalidParameterKind,
                not_a_hook_message("teardown"@),
                item_span(item),
            ),
        },
{
    hook_item(item, "teardown")
}

/// The hooks that run around one test.
#[derive(Debug)]
pub struct RunPlan {
    pub setup: Option<String>,
    pub teardown: Option<String>,
}

/// What is done next while a woven test runs.
#[derive(Debug, PartialEq, Eq)]
pub enum Action {
    /// Run the setup hook inside a failure-isolating boundary.
    RunSetup,
    /// Run the body inside a boundary of its own.
    RunBody,
    /// Run the teardown hook.
    RunTeardown,
    /// The test has passed.
    Pass,
    /// The test has failed, with this message.
    Fail(String),
}

/// The mathematical content of an [`Action`].
pub enum ActionView {
    RunSetup,
    RunBody,
    RunTeardown,
    Pass,
    Fail(Seq<char>),
}

impl View for Action {
    type V = ActionView;

    open spec fn view(&self) -> ActionView {
        match self {
            Action::RunSetup => ActionView::RunSetup,
            Action::RunBody => ActionView::RunBody,
            Action::RunTeardown => ActionView::RunTeardown,
            Action::Pass => ActionView::Pass,
            Action::Fail(message) => ActionView::Fail(message@),
        }
    }
}

/// How each step taken so far ended: `None` for success, else the cause of its failure.
pub type History = Seq<Option<Seq<char>>>;

/// The history of a run, as mathematical content.
pub open spec fn history_view(history: Seq<Option<String>>) -> History {
    Seq::new(
        history.len(),
        |i: int|
            match history[i] {
                Some(cause) => Some(cause@),
                None => None,
            },
    )
}

/// What follows once setup is behind: the body; then the teardown, if
/// there is one, whatever the body did; then the end, which is the
/// failure of the teardown, else that of the body, else a pass.
pub open spec fn after_setup(has_teardown: bool, history: History) -> ActionView {
    if history.len() == 0 {
        ActionView::RunBody
    } else if has_teardown && history.len() == 1 {
        ActionView::RunTeardown
    } else if has_teardown && history[1] is Some {
        ActionView::Fail(history[1]->Some_0)
    } else if history[0] is Some {
        ActionView::Fail(history[0]->Some_0)
    } else {
        ActionView::Pass
    }
}

/// What is done next in a run with the given history. A failed setup
/// ends the test at once: neither the body nor the teardown runs.
pub open spec fn scheduled(has_setup: bool, has_teardown: bool, history: History) -> ActionView {
    if has_setup {
        if history.len() == 0 {
            ActionView::RunSetup
        } else if history[0] is Some {
            ActionView::Fail("setup failed: "@ + history[0]->Some_0)
        } else {
            after_setup(has_teardown, history.skip(1))
        }
    } else {
        after_setup(has_teardown, history)
    }
}

/// Decides what is done next while a woven test runs. The caller runs
/// the step and adds how it ended to the history.
pub fn next_action(plan: &RunPlan, history: &Vec<Option<String>>) -> (action: Action)
    ensures
        action@ == scheduled(plan.setup is Some, plan.teardown is Some, history_view(history@)),
{
    let ghost whole = history_view(history@);
    let mut start: usize = 0;
    if plan.setup.is_some() {
        if history.len() == 0 {
            return Action::RunSetup;
        }
        match &history[0] {
            Some(cause) => {
                assert(whole[0] == Some(cause@));
                return Action::Fail(join("setup failed: ".to_owned(), cause.as_str()));
            },
            None => {
                assert(whole[0] is None);
            },
        }
        start = 1;
    }
    let ghost rest = whole.skip(start as int);
    assert(!(plan.setup is Some) ==> rest =~= whole);
    let done = history.len() - start;
    if done == 0 {
        return Action::RunBody;
    }
    assert(rest[0] == whole[start as int]);
    if plan.teardown.is_some() {
        if done == 1 {
            return Action::RunTeardown;
        }
        assert(rest[1] == whole[start + 1]);
        match &history[start + 1] {
            Some(cause) => {
                return Action::Fail(cause.clone());
            },
            None => {},
        }
    }
    match &history[start] {
        Some(cause) => Action::Fail(cause.clone()),
        None => Action::Pass,
    }
}

/// A failed setup fails the test with `setup failed: ` and the cause,
/// whatever is recorded after it: the body and the teardown never run.
pub proof fn lemma_failed_setup_ends_run(has_teardown: bool, history: History)
    requires
        history.len() > 0,
        history[0] is Some,
    ensures
        scheduled(true, has_teardown, history) == ActionView::Fail(
            "setup failed: "@ + history[0]->Some_0,
        ),
{
}

/// After a setup that succeeded, the body runs, then the teardown runs
/// whether the body failed or not, and then the test ends as the body did
/// where the teardown succeeded.
pub proof fn lemma_teardown_pairs_with_setup(body: Option<Seq<char>>)
    ensures
        scheduled(true, true, Seq::empty()) == ActionView::RunSetup,
        scheduled(true, true, seq![None]) == ActionView::RunBody,
        scheduled(true, true, seq![None, body]) == ActionView::RunTeardown,
        scheduled(true, true, seq![None, body, None]) == match body {
            Some(cause) => ActionView::Fail(cause),
            None => ActionView::Pass,
        },
{
    let h1: History = seq![None];
    let h2: History = seq![None, body];
    let h3: History = seq![None, body, None];
    assert(h1.skip(1).len() == 0);
    assert(h2.skip(1) =~= seq![body]);
    assert(h3.skip(1) =~= seq![body, None]);
}

/// The hooks that a woven body runs: the name in its guarded setup, if it
/// begins with one, and the teardown of its guarded body, if it ends with one.
pub open spec fn hooks_in(body: Seq<Stmt>) -> (Option<Seq<char>>, Option<Seq<char>>) {
    (
        if body.len() > 0 && body[0] is GuardedSetup {
            Some(body[0]->hook@)
        } else {
            None
        },
        if body.len() > 0 && body.last() is GuardedBody {
            Some(body.last()->teardown@)
        } else {
            None
        },
    )
}

/// Whether every statement is the author's own.
pub open spec fn plain(body: Seq<Stmt>) -> bool {
    forall|i: int| 0 <= i < body.len() ==> (#[trigger] body[i]) is Source
}

/// The hooks woven into a plain body are the hooks that the result runs.
pub proof fn lemma_woven_hooks(
    body: Seq<Stmt>,
    setup: Option<Seq<char>>,
    teardown: Option<Seq<char>>,
    result: Seq<Stmt>,
)
    requires
        plain(body),
        woven(body, setup, teardown, result),
    ensures
        hooks_in(result) == (setup, teardown),
{
    if teardown is None {
        if setup is Some {
            assert(result =~= seq![result[0]] + body);
            if body.len() > 0 {
                assert(result.last() == body.last());
            }
        } else {
            if body.len() > 0 {
                assert(body[0] is Source);
                assert(body.last() is Source);
            }
        }
    }
}

/// The hooks that run around a test, read off its woven body.
pub fn run_plan(item_fn: &TestTemplate) -> (plan: RunPlan)
    ensures
        hook_view_of(plan.setup) == hooks_in(item_fn.body@).0,
        hook_view_of(plan.teardown) == hooks_in(item_fn.body@).1,
{
    let n = item_fn.body.len();
    let mut plan = RunPlan { setup: None, teardown: None };
    if n > 0 {
        match &item_fn.body[0] {
            Stmt::GuardedSetup { hook } => {
                plan.setup = Some(hook.clone());
            },
            _ => {},
        }
        match &item_fn.body[n - 1] {
            Stmt::GuardedBody { body, teardown } => {
                plan.teardown = Some(teardown.clone());
            },
            _ => {},
        }
    }
    plan
}

/// The name of a hook in a plan, as mathematical content.
pub open spec fn hook_view_of(hook: Option<String>) -> Option<Seq<char>> {
    match hook {
        Some(name) => Some(name@),
        None => None,
    }
}

/// Once a function marked `setup` is among the items looked at, the
/// hooks found hold a setup.
pub proof fn lemma_setup_is_found(items: Seq<Item>, i: int, n: int)
    requires
        0 <= i < n <= items.len(),
        items[i] matches Item::Fn(f) && marked(f.attrs@, "setup"@),
        hooks_among(items, n) is Ok,
    ensures
        hooks_among(items, n)->Ok_0.0 is Some,
    decreases n,
{
    if i < n - 1 {
        lemma_setup_is_found(items, i, n - 1);
    }
}

/// A group with two functions marked `setup` is refused.
pub proof fn lemma_second_setup_refused(items: Seq<Item>, i: int, j: int)
    requires
        0 <= i < j < items.len(),
        items[i] matches Item::Fn(f) && marked(f.attrs@, "setup"@),
        items[j] matches Item::Fn(g) && marked(g.attrs@, "setup"@),
    ensures
        hooks_among(items, items.len() as int) matches Err(f) && f.kind
            == ErrorKind::DuplicateHook,
{
    if hooks_among(items, j) is Ok {
        lemma_setup_is_found(items, i, j);
        assert(hooks_among(items, j + 1) is Err);
    } else {
        lemma_hooks_failure_stays(items, j, j + 1);
    }
    lemma_hooks_failure_stays(items, j + 1, items.len() as int);
    lemma_hooks_failure_kind(items, items.len() as int);
}

/// Looking for hooks fails only with a duplicate hook.
pub proof fn lemma_hooks_failure_kind(items: Seq<Item>, n: int)
    requires
        hooks_among(items, n) is Err,
    ensures
        hooks_among(items, n)->Err_0.kind == ErrorKind::DuplicateHook,
    decreases n,
{
    if n > 0 && hooks_among(items, n - 1) is Err {
        lemma_hooks_failure_kind(items, n - 1);
    }
}

/// In a group with a setup and a teardown, a template under
/// `test_params` with a plain body comes out with both hooks woven in, so
/// that every test generated from it runs the setup before its body and
/// the teardown after it.
pub proof fn lemma_template_runs_hooks(
    items: Seq<Item>,
    after: Seq<Item>,
    setup: Ident,
    teardown: Ident,
    i: int,
)
    requires
        hooks_among(items, items.len() as int) == Ok::<
            (Option<Ident>, Option<Ident>),
            FailureView,
        >((Some(setup), Some(teardown))),
        items_woven(items, after, Some(setup.name@), Some(teardown.name@)),
        0 <= i < items.len(),
        items[i] matches Item::Fn(f) && marked(f.attrs@, "test_params"@) && plain(f.body@),
    ensures
        after[i] matches Item::Fn(g) && hooks_in(g.body@) == (
            Some(setup.name@),
            Some(teardown.name@),
        ),
{
    assert(item_woven(items[i], after[i], Some(setup.name@), Some(teardown.name@)));
    lemma_woven_hooks(
        items[i]->Fn_0.body@,
        Some(setup.name@),
        Some(teardown.name@),
        after[i]->Fn_0.body@,
    );
}

} // verus!
