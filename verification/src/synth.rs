//! The test declaration synthesizer: one thin test per case, all calling
//! one implementation.

use crate::canonicalize::{case_views, CaseView, ValueWithSpan};
use crate::error::{failure, ErrorKind, Failure, FailureView, Span};
use crate::json::{describe, json_text, serialize_json};
use crate::suffix::{suffix, test_name, value_to_suffix};
use crate::template::{is_path_type, path_typed, FnArg, Ident, TestTemplate, TypeExpr};
use crate::text::{chars_of, decimal_text, ends_with, join, joined, push_char, push_decimal, same_text, starts_with};
use crate::value::{CanonicalValue, ValueView};
use vstd::prelude::*;
use vstd::string::*;

verus! {

/// One generated test: a thin declaration that decodes its case's text
/// into the target type and calls the implementation.
#[derive(Debug)]
pub struct GeneratedTest {
    pub name: String,
    pub doc: String,
    /// The case's value as structured text.
    pub json: String,
    /// The target type, as text.
    pub type_text: String,
    pub impl_name: String,
    /// Whether the value is an array that is taken apart into the arguments.
    pub is_tuple: bool,
    pub arg_count: usize,
}

/// The mathematical content of a [`GeneratedTest`].
pub struct GeneratedTestView {
    pub name: Seq<char>,
    pub doc: Seq<char>,
    pub json: Seq<char>,
    pub type_text: Seq<char>,
    pub impl_name: Seq<char>,
    pub is_tuple: bool,
    pub arg_count: nat,
}

impl View for GeneratedTest {
    type V = GeneratedTestView;

    open spec fn view(&self) -> GeneratedTestView {
        GeneratedTestView {
            name: self.name@,
            doc: self.doc@,
            json: self.json@,
            type_text: self.type_text@,
            impl_name: self.impl_name@,
            is_tuple: self.is_tuple,
            arg_count: self.arg_count as nat,
        }
    }
}

/// What one template expands to: the implementation, which is the template
/// under its implementation name, and the generated tests in case order.
#[derive(Debug)]
pub struct TestSet {
    pub implementation: TestTemplate,
    pub tests: Vec<GeneratedTest>,
}

/// What stands in a string literal for one character.
pub open spec fn escape_char(c: char) -> Seq<char> {
    if c == '"' {
        seq!['\\', '"']
    } else if c == '\\' {
        seq!['\\', '\\']
    } else if c == '\n' {
        seq!['\\', 'n']
    } else if c == '\r' {
        seq!['\\', 'r']
    } else if c == '\t' {
        seq!['\\', 't']
    } else if c == '\0' {
        seq!['\\', '0']
    } else {
        seq![c]
    }
}

/// A text with each character escaped for a string literal.
pub open spec fn escaped(s: Seq<char>) -> Seq<char>
    decreases s.len(),
{
    if s.len() == 0 {
        Seq::empty()
    } else {
        escaped(s.drop_last()) + escape_char(s.last())
    }
}

/// The string literal that denotes a text.
pub open spec fn quoted(s: Seq<char>) -> Seq<char> {
    seq!['"'] + escaped(s) + seq!['"']
}

/// The names of `n` positional arguments.
pub open spec fn arg_names(n: nat) -> Seq<Seq<char>> {
    Seq::new(n, |i: int| "arg_"@ + decimal_text(i as nat))
}

/// The positional arguments, as they stand in a pattern or a call.
pub open spec fn arg_list(n: nat) -> Seq<char> {
    joined(arg_names(n), " , "@)
}

/// What the decoded value is bound to.
pub open spec fn binding(t: GeneratedTestView) -> Seq<char> {
    if t.is_tuple {
        "("@ + arg_list(t.arg_count) + ")"@
    } else {
        "data"@
    }
}

/// What the implementation is called with.
pub open spec fn arguments(t: GeneratedTestView) -> Seq<char> {
    if t.is_tuple {
        arg_list(t.arg_count)
    } else {
        "data"@
    }
}

/// The declaration of a generated test, as source text.
pub open spec fn rendered(t: GeneratedTestView) -> Seq<char> {
    "#[doc = "@ + quoted(t.doc) + "] #[test] #[allow(non_snake_case)] fn "@ + t.name
        + " () { let "@ + binding(t) + " : "@ + t.type_text
        + " = rust_test_framework :: __private :: serde_json :: from_str ("@ + quoted(t.json)
        + ") . unwrap () ; "@ + t.impl_name + " ("@ + arguments(t) + ") ; }"@
}

/// The declarations of the tests, one after another with a space between.
pub open spec fn rendered_all(tests: Seq<GeneratedTest>) -> Seq<char> {
    joined(Seq::new(tests.len(), |i: int| rendered(tests[i]@)), " "@)
}

fn quote_text(s: &str) -> (r: String)
    ensures
        r@ == quoted(s@),
{
    let mut r = String::new();
    push_char(&mut r, '"');
    for c in it: s.chars()
        invariant
            it.seq() == s@,
            r@ == seq!['"'] + escaped(s@.take(it.index() as int)),
    {
        let ghost before = r@;
        if c == '"' {
            push_char(&mut r, '\\');
            push_char(&mut r, '"');
        } else if c == '\\' {
            push_char(&mut r, '\\');
            push_char(&mut r, '\\');
        } else if c == '\n' {
            push_char(&mut r, '\\');
            push_char(&mut r, 'n');
        } else if c == '\r' {
            push_char(&mut r, '\\');
            push_char(&mut r, 'r');
        } else if c == '\t' {
            push_char(&mut r, '\\');
            push_char(&mut r, 't');
        } else if c == '\0' {
            push_char(&mut r, '\\');
            push_char(&mut r, '0');
        } else {
            push_char(&mut r, c);
        }
        proof {
            let next = s@.take(it.index() + 1);
            assert(next.drop_last() =~= s@.take(it.index() as int));
            assert(next.last() == c);
            assert(r@ =~= before + escape_char(c));
            assert(r@ =~= seq!['"'] + escaped(next));
        }
    }
    assert(s@.take(s@.len() as int) =~= s@);
    push_char(&mut r, '"');
    r
}

fn arg_list_of(n: usize) -> (r: String)
    ensures
        r@ == arg_list(n as nat),
{
    let ghost names = arg_names(n as nat);
    let mut r = String::new();
    let mut i: usize = 0;
    while i < n
        invariant
            i <= n,
            names == arg_names(n as nat),
            r@ == joined(names.take(i as int), " , "@),
        decreases n - i,
    {
        let ghost before = r@;
        if i > 0 {
            r.append(" , ");
        }
        let mut name = "arg_".to_owned();
        push_decimal(&mut name, i as u64);
        r.append(name.as_str());
        proof {
            assert(names.take(i + 1).drop_last() =~= names.take(i as int));
            assert(names.take(i + 1).last() == names[i as int]);
            assert(name@ == names[i as int]);
            if i == 0 {
                assert(r@ =~= names[0]);
            }
        }
        i = i + 1;
    }
    assert(names.take(n as int) =~= names);
    r
}

impl GeneratedTest {
    /// The test's declaration, as source text.
    pub fn render(&self) -> (r: String)
        ensures
            r@ == rendered(self@),
    {
        let list = arg_list_of(self.arg_count);
        let bound = if self.is_tuple {
            join(join("(".to_owned(), list.as_str()), ")")
        } else {
            "data".to_owned()
        };
        let args = if self.is_tuple {
            list
        } else {
            "data".to_owned()
        };
        let mut r = "#[doc = ".to_owned();
        r.append(quote_text(self.doc.as_str()).as_str());
        r.append("] #[test] #[allow(non_snake_case)] fn ");
        r.append(self.name.as_str());
        r.append(" () { let ");
        r.append(bound.as_str());
        r.append(" : ");
        r.append(self.type_text.as_str());
        r.append(" = rust_test_framework :: __private :: serde_json :: from_str (");
        r.append(quote_text(self.json.as_str()).as_str());
        r.append(") . unwrap () ; ");
        r.append(self.impl_name.as_str());
        r.append(" (");
        r.append(args.as_str());
        r.append(") ; }");
        r
    }
}

impl TestSet {
    /// The declarations of the generated tests, as source text.
    pub fn render(&self) -> (r: String)
        ensures
            r@ == rendered_all(self.tests@),
    {
        let ghost parts = Seq::new(self.tests.len() as nat, |i: int| rendered(self.tests[i]@));
        let mut r = String::new();
        let mut i: usize = 0;
        while i < self.tests.len()
            invariant
                i <= self.tests.len(),
                parts.len() == self.tests.len(),
                forall|j: int| 0 <= j < parts.len() ==> parts[j] == rendered(self.tests[j]@),
                r@ == joined(parts.take(i as int), " "@),
            decreases self.tests.len() - i,
        {
            if i > 0 {
                r.append(" ");
            }
            let one = self.tests[i].render();
            r.append(one.as_str());
            proof {
                assert(parts.take(i + 1).drop_last() =~= parts.take(i as int));
                assert(parts.take(i + 1).last() == parts[i as int]);
                if i == 0 {
                    assert(r@ =~= parts[0]);
                }
            }
            i = i + 1;
        }
        assert(parts.take(self.tests.len() as int) =~= parts);
        assert(parts =~= Seq::new(self.tests@.len(), |i: int| rendered(self.tests@[i]@)));
        r
    }
}

} // verus!

verus! {

/// The naming suffix of a case: the one worked out beforehand, or the one
/// derived from the value.
pub open spec fn case_suffix(case: CaseView) -> Seq<char> {
    match case.suffix {
        Some(s) => s,
        None => suffix(case.value),
    }
}

/// The documentation line of a generated test.
pub open spec fn doc_text(fn_name: Seq<char>, index: Option<nat>) -> Seq<char> {
    match index {
        Some(i) => "Generated test "@ + fn_name + " #"@ + decimal_text(i),
        None => "Generated test "@ + fn_name,
    }
}

/// How the message begins when a case's value cannot be written as text.
pub open spec fn serialize_prefix(index: Option<nat>) -> Seq<char> {
    match index {
        Some(i) => "Failed to serialize JSON at index "@ + decimal_text(i) + ": "@,
        None => "Failed to serialize JSON: "@,
    }
}

/// The index of a case, as a mathematical number.
pub open spec fn index_view(index: Option<usize>) -> Option<nat> {
    match index {
        Some(i) => Some(i as nat),
        None => None,
    }
}

/// The test generated for one case whose value is written as `json`.
pub open spec fn single_test(
    fn_name: Seq<char>,
    impl_name: Seq<char>,
    case: CaseView,
    index: Option<nat>,
    type_text: Seq<char>,
    is_tuple: bool,
    arg_count: nat,
    json: Seq<char>,
) -> GeneratedTestView {
    GeneratedTestView {
        name: test_name(fn_name, case_suffix(case), index),
        doc: doc_text(fn_name, index),
        json,
        type_text,
        impl_name,
        is_tuple,
        arg_count,
    }
}

/// Whether a failure is that of writing a case's value as text.
pub open spec fn serialization_failure(f: FailureView, index: Option<nat>, span: Span) -> bool {
    f.kind == ErrorKind::SerializationFailed && f.span == span && starts_with(
        f.message,
        serialize_prefix(index),
    )
}

/// The failure of a case whose value cannot be written as text, with the
/// serializer's own words after the prefix.
pub fn serialization_failed(fn_name: &Ident, index: Option<usize>, detail: &str) -> (f: Failure)
    ensures
        f@ == failure(
            ErrorKind::SerializationFailed,
            serialize_prefix(index_view(index)) + detail@,
            fn_name.span,
        ),
        serialization_failure(f@, index_view(index), fn_name.span),
{
    let mut message = match index {
        Some(i) => {
            let mut m = "Failed to serialize JSON at index ".to_owned();
            push_decimal(&mut m, i as u64);
            m.append(": ");
            m
        },
        None => "Failed to serialize JSON: ".to_owned(),
    };
    let ghost prefix = message@;
    message.append(detail);
    assert(message@.subrange(0, prefix.len() as int) =~= prefix);
    Failure::new(ErrorKind::SerializationFailed, message, fn_name.span)
}

/// Builds the test of one case from the text of its value: its name from
/// the case's suffix and index, its doc line, and what it calls.
pub fn build_single_test(
    fn_name: &Ident,
    impl_fn_name: &str,
    case: &ValueWithSpan,
    index: Option<usize>,
    type_token: &str,
    is_tuple: bool,
    arg_count: usize,
    json: String,
) -> (t: GeneratedTest)
    ensures
        t@ == single_test(
            fn_name.name@,
            impl_fn_name@,
            case@,
            index_view(index),
            type_token@,
            is_tuple,
            arg_count as nat,
            json@,
        ),
{
    let suffix = match &case.suffix {
        Some(s) => s.clone(),
        None => value_to_suffix(&case.value),
    };
    let mut name = fn_name.name.clone();
    if suffix.as_str().unicode_len() > 0 {
        push_char(&mut name, '_');
        push_char(&mut name, '_');
        name.append(suffix.as_str());
        assert(name@ =~= fn_name.name@ + seq!['_', '_'] + suffix@);
    } else {
        match index {
            Some(i) => {
                push_char(&mut name, '_');
                push_decimal(&mut name, i as u64);
                assert(name@ =~= fn_name.name@ + seq!['_'] + decimal_text(i as nat));
            },
            None => {},
        }
    }
    let mut doc = "Generated test ".to_owned();
    doc.append(fn_name.name.as_str());
    match index {
        Some(i) => {
            doc.append(" #");
            push_decimal(&mut doc, i as u64);
        },
        None => {},
    }
    GeneratedTest {
        name,
        doc,
        json,
        type_text: type_token.to_owned(),
        impl_name: impl_fn_name.to_owned(),
        is_tuple,
        arg_count,
    }
}

/// Generates the test for one case. The value is written as text by
/// `serialize_json`; where that fails, so does the case, at the template's name.
pub fn generate_single_test(
    fn_name: &Ident,
    impl_fn_name: &str,
    case: &ValueWithSpan,
    index: Option<usize>,
    type_token: &str,
    is_tuple: bool,
    arg_count: usize,
) -> (r: Result<GeneratedTest, Failure>)
    ensures
        match r {
            Ok(t) => json_text(case.value@) == Some(t.json@) && t@ == single_test(
                fn_name.name@,
                impl_fn_name@,
                case@,
                index_view(index),
                type_token@,
                is_tuple,
                arg_count as nat,
                t.json@,
            ),
            Err(f) => json_text(case.value@) is None && serialization_failure(
                f@,
                index_view(index),
                fn_name.span,
            ),
        },
        case.value@.float_free() ==> r is Ok,
{
    match serialize_json(&case.value) {
        Ok(json) => Ok(
            build_single_test(
                fn_name,
                impl_fn_name,
                case,
                index,
                type_token,
                is_tuple,
                arg_count,
                json,
            ),
        ),
        Err(e) => {
            let detail = describe(&e);
            Err(serialization_failed(fn_name, index, detail.as_str()))
        },
    }
}

/// The name under which the tests are generated and the name of the
/// implementation. A name of the form `__x_impl` is already that of an
/// implementation, whose tests are named after `x`.
pub open spec fn split_name(name: Seq<char>) -> (Seq<char>, Seq<char>) {
    if starts_with(name, seq!['_', '_']) && ends_with(name, seq!['_', 'i', 'm', 'p', 'l'])
        && name.len() > 7 {
        (name.subrange(2, name.len() - 5), name)
    } else {
        (name, seq!['_', '_'] + name + seq!['_', 'i', 'm', 'p', 'l'])
    }
}

/// The text of a parameter's type; a receiver counts as the unit type.
pub open spec fn arg_type_text(arg: FnArg) -> Seq<char> {
    match arg {
        FnArg::Typed { ty } => ty.text@,
        FnArg::Receiver { .. } => "()"@,
    }
}

/// The tuple of the parameters' types, as text.
pub open spec fn tuple_type_text(inputs: Seq<FnArg>) -> Seq<char> {
    "("@ + joined(Seq::new(inputs.len(), |i: int| arg_type_text(inputs[i])), " , "@) + ")"@
}

/// The target type: the explicit one; else, with several parameters, the
/// tuple of their types; else the type of the only parameter. There is
/// none where the only parameter declares no type or there is no parameter.
pub open spec fn target_type(inputs: Seq<FnArg>, explicit: Option<TypeExpr>) -> Option<Seq<char>> {
    match explicit {
        Some(ty) => Some(ty.text@),
        None => if inputs.len() > 1 {
            Some(tuple_type_text(inputs))
        } else if inputs.len() == 1 && inputs[0] is Typed {
            Some(arg_type_text(inputs[0]))
        } else {
            None
        },
    }
}

/// The index under which a case is named: none where it is the only case.
pub open spec fn case_index(count: nat, i: nat) -> Option<nat> {
    if count == 1 {
        None
    } else {
        Some(i)
    }
}

/// Whether `p` is among the paths.
pub open spec fn listed(paths: Seq<String>, p: Seq<char>) -> bool {
    exists|j: int| 0 <= j < paths.len() && (#[trigger] paths[j])@ == p
}

/// Whether the template takes one parameter of a path type, so that a
/// case that names a path needs that path to exist.
pub open spec fn needs_existing_path(inputs: Seq<FnArg>) -> bool {
    inputs.len() == 1 && (inputs[0] matches FnArg::Typed { ty } && path_typed(ty))
}

/// Whether a case names a path that is known to be missing.
pub open spec fn path_missing(inputs: Seq<FnArg>, case: CaseView, missing: Seq<String>) -> bool {
    needs_existing_path(inputs) && (case.value matches ValueView::String(p) && listed(missing, p))
}

/// Whether no test can be generated for a case.
pub open spec fn case_fails(inputs: Seq<FnArg>, case: CaseView, missing: Seq<String>) -> bool {
    path_missing(inputs, case, missing) || json_text(case.value) is None
}

/// Whether `f` is the failure of a case that fails.
pub open spec fn case_failure(
    f: FailureView,
    inputs: Seq<FnArg>,
    case: CaseView,
    index: Option<nat>,
    missing: Seq<String>,
    fn_span: Span,
) -> bool {
    if path_missing(inputs, case, missing) {
        f == failure(
            ErrorKind::SourceUnreadable,
            "Path not found: "@ + case.value->String_0,
            case.span,
        )
    } else {
        serialization_failure(f, index, fn_span)
    }
}

/// Whether `result` is `original` under another name.
pub open spec fn is_renamed(
    result: TestTemplate,
    original: TestTemplate,
    name: Seq<char>,
    span: Span,
) -> bool {
    &&& result.ident.name@ == name
    &&& result.ident.span == span
    &&& result.inputs == original.inputs
    &&& result.inputs_span == original.inputs_span
    &&& result.attrs == original.attrs
    &&& result.body == original.body
}

/// Whether case `k` is the first for which no test can be generated.
pub open spec fn first_failing(
    inputs: Seq<FnArg>,
    cases: Seq<CaseView>,
    missing: Seq<String>,
    k: int,
) -> bool {
    &&& 0 <= k < cases.len()
    &&& case_fails(inputs, cases[k], missing)
    &&& forall|j: int| 0 <= j < k ==> !case_fails(inputs, #[trigger] cases[j], missing)
}

/// The test generated for case `i` of a template's cases.
pub open spec fn expected_test(
    input_fn: TestTemplate,
    cases: Seq<CaseView>,
    fn_name: Seq<char>,
    explicit_type: Option<TypeExpr>,
    i: int,
) -> GeneratedTestView {
    single_test(
        split_name(fn_name).0,
        split_name(fn_name).1,
        cases[i],
        case_index(cases.len(), i as nat),
        target_type(input_fn.inputs@, explicit_type).unwrap(),
        input_fn.inputs.len() > 1,
        input_fn.inputs.len() as nat,
        json_text(cases[i].value).unwrap(),
    )
}

fn split_name_of(name: &str) -> (r: (String, String))
    ensures
        (r.0@, r.1@) == split_name(name@),
{
    let chars = chars_of(name);
    let n = chars.len();
    let ghost head = seq!['_', '_'];
    let ghost tail = seq!['_', 'i', 'm', 'p', 'l'];
    if n > 7 && chars[0] == '_' && chars[1] == '_' && chars[n - 5] == '_' && chars[n - 4] == 'i'
        && chars[n - 3] == 'm' && chars[n - 2] == 'p' && chars[n - 1] == 'l' {
        let mut base = String::new();
        let mut i: usize = 2;
        while i < n - 5
            invariant
                2 <= i <= n - 5,
                n == chars.len(),
                chars@ == name@,
                base@ == name@.subrange(2, i as int),
            decreases n - i,
        {
            push_char(&mut base, chars[i]);
            assert(base@ =~= name@.subrange(2, i + 1));
            i = i + 1;
        }
        proof {
            assert(name@.subrange(0, 2) =~= head);
            assert(name@.subrange(n - 5, n as int) =~= tail);
        }
        (base, name.to_owned())
    } else {
        proof {
            if n > 7 && starts_with(name@, head) && ends_with(name@, tail) {
                let front = name@.subrange(0, 2);
                let back = name@.subrange(n - 5, n as int);
                assert(front[0] == '_' && front[1] == '_');
                assert(back[0] == '_' && back[1] == 'i' && back[2] == 'm' && back[3] == 'p'
                    && back[4] == 'l');
            }
        }
        let mut whole = String::new();
        push_char(&mut whole, '_');
        push_char(&mut whole, '_');
        whole.append(name);
        push_char(&mut whole, '_');
        push_char(&mut whole, 'i');
        push_char(&mut whole, 'm');
        push_char(&mut whole, 'p');
        push_char(&mut whole, 'l');
        assert(whole@ =~= head + name@ + tail);
        (name.to_owned(), whole)
    }
}

fn arg_type_text_of(arg: &FnArg) -> (r: String)
    ensures
        r@ == arg_type_text(*arg),
{
    match arg {
        FnArg::Typed { ty } => ty.text.clone(),
        FnArg::Receiver { .. } => "()".to_owned(),
    }
}

fn target_type_of(inputs: &Vec<FnArg>, explicit: &Option<TypeExpr>) -> (r: Option<String>)
    ensures
        match r {
            Some(text) => target_type(inputs@, *explicit) == Some(text@),
            None => target_type(inputs@, *explicit) is None,
        },
{
    match explicit {
        Some(ty) => Some(ty.text.clone()),
        None => {
            if inputs.len() > 1 {
                let ghost parts = Seq::new(inputs@.len(), |i: int| arg_type_text(inputs@[i]));
                let mut list = String::new();
                let mut i: usize = 0;
                while i < inputs.len()
                    invariant
                        i <= inputs.len(),
                        parts.len() == inputs.len(),
                        forall|j: int| 0 <= j < parts.len() ==> parts[j] == arg_type_text(inputs@[j]),
                        list@ == joined(parts.take(i as int), " , "@),
                    decreases inputs.len() - i,
                {
                    if i > 0 {
                        list.append(" , ");
                    }
                    let one = arg_type_text_of(&inputs[i]);
                    list.append(one.as_str());
                    proof {
                        assert(parts.take(i + 1).drop_last() =~= parts.take(i as int));
                        assert(parts.take(i + 1).last() == parts[i as int]);
                        if i == 0 {
                            assert(list@ =~= parts[0]);
                        }
                    }
                    i = i + 1;
                }
                assert(parts.take(inputs.len() as int) =~= parts);
                Some(join(join("(".to_owned(), list.as_str()), ")"))
            } else if inputs.len() == 1 {
                match &inputs[0] {
                    FnArg::Typed { ty } => Some(ty.text.clone()),
                    FnArg::Receiver { .. } => None,
                }
            } else {
                None
            }
        },
    }
}

fn is_listed(paths: &Vec<String>, p: &str) -> (r: bool)
    ensures
        r == listed(paths@, p@),
{
    let mut i: usize = 0;
    while i < paths.len()
        invariant
            i <= paths.len(),
            forall|j: int| 0 <= j < i ==> (#[trigger] paths[j])@ != p@,
        decreases paths.len() - i,
    {
        if same_text(paths[i].as_str(), p) {
            return true;
        }
        i = i + 1;
    }
    false
}

fn needs_path(inputs: &Vec<FnArg>) -> (r: bool)
    ensures
        r == needs_existing_path(inputs@),
{
    if inputs.len() == 1 {
        match &inputs[0] {
            FnArg::Typed { ty } => is_path_type(ty),
            FnArg::Receiver { .. } => false,
        }
    } else {
        false
    }
}

/// Whether `set` is what a template with these cases expands to: the
/// template under its implementation name, and the test of each case.
pub open spec fn generated_set(
    set: TestSet,
    input_fn: TestTemplate,
    cases: Seq<CaseView>,
    fn_name: Ident,
    explicit_type: Option<TypeExpr>,
    missing: Seq<String>,
) -> bool {
    &&& target_type(input_fn.inputs@, explicit_type) is Some
    &&& forall|i: int|
        0 <= i < cases.len() ==> !case_fails(input_fn.inputs@, #[trigger] cases[i], missing)
    &&& is_renamed(set.implementation, input_fn, split_name(fn_name.name@).1, fn_name.span)
    &&& set.tests.len() == cases.len()
    &&& forall|i: int|
        0 <= i < cases.len() ==> (#[trigger] set.tests[i])@ == expected_test(
            input_fn,
            cases,
            fn_name.name@,
            explicit_type,
            i,
        )
}

/// Whether `f` is the failure to expand a template with these cases: no
/// target type, or else the failure of the first case that fails.
pub open spec fn generation_failure(
    f: FailureView,
    input_fn: TestTemplate,
    cases: Seq<CaseView>,
    fn_name: Ident,
    explicit_type: Option<TypeExpr>,
    missing: Seq<String>,
) -> bool {
    match target_type(input_fn.inputs@, explicit_type) {
        None => f == failure(
            ErrorKind::UntypedReceiver,
            "Could not infer type for test case. Please provide it explicitly."@,
            input_fn.inputs_span,
        ),
        Some(_) => exists|k: int|
            first_failing(input_fn.inputs@, cases, missing, k) && case_failure(
                f,
                input_fn.inputs@,
                cases[k],
                case_index(cases.len(), k as nat),
                missing,
                fn_name.span,
            ),
    }
}

/// Whether `r` is the outcome of expanding a template with these cases.
pub open spec fn expansion(
    r: Result<TestSet, Failure>,
    input_fn: TestTemplate,
    cases: Seq<CaseView>,
    fn_name: Ident,
    explicit_type: Option<TypeExpr>,
    missing: Seq<String>,
) -> bool {
    match r {
        Ok(set) => generated_set(set, input_fn, cases, fn_name, explicit_type, missing),
        Err(f) => generation_failure(f@, input_fn, cases, fn_name, explicit_type, missing),
    }
}

/// Generates the tests of a template: the implementation, which is the
/// template under its implementation name, and one test per case. A lone
/// case carries no index. Where the template takes one parameter of a
/// path type, a case that names a path listed in `missing` fails. The
/// first case that fails decides the failure.
pub fn generate_test_set(
    input_fn: TestTemplate,
    json_array: Vec<ValueWithSpan>,
    fn_name: Ident,
    explicit_type: Option<TypeExpr>,
    missing: &Vec<String>,
) -> (r: Result<TestSet, Failure>)
    ensures
        expansion(r, input_fn, case_views(json_array@), fn_name, explicit_type, missing@),
{
    let ghost cases = case_views(json_array@);
    let (real_name, impl_name) = split_name_of(fn_name.name.as_str());
    let type_token = match target_type_of(&input_fn.inputs, &explicit_type) {
        Some(text) => text,
        None => {
            return Err(
                Failure::with_text(
                    ErrorKind::UntypedReceiver,
                    "Could not infer type for test case. Please provide it explicitly.",
                    input_fn.inputs_span,
                ),
            );
        },
    };
    let test_ident = Ident { name: real_name, span: fn_name.span };
    let is_tuple = input_fn.inputs.len() > 1;
    let arg_count = input_fn.inputs.len();
    let check_paths = needs_path(&input_fn.inputs);
    let count = json_array.len();
    let mut tests: Vec<GeneratedTest> = Vec::new();
    let mut i: usize = 0;
    while i < count
        invariant
            i <= count,
            count == json_array.len(),
            cases == case_views(json_array@),
            tests.len() == i,
            test_ident.name@ == split_name(fn_name.name@).0,
            test_ident.span == fn_name.span,
            impl_name@ == split_name(fn_name.name@).1,
            target_type(input_fn.inputs@, explicit_type) == Some(type_token@),
            is_tuple == (input_fn.inputs.len() > 1),
            arg_count == input_fn.inputs.len(),
            check_paths == needs_existing_path(input_fn.inputs@),
            forall|j: int| 0 <= j < i ==> !case_fails(input_fn.inputs@, #[trigger] cases[j], missing@),
            forall|j: int|
                0 <= j < i ==> (#[trigger] tests[j])@ == expected_test(
                    input_fn,
                    cases,
                    fn_name.name@,
                    explicit_type,
                    j,
                ),
        decreases count - i,
    {
        let case = &json_array[i];
        assert(cases[i as int] == case@);
        if check_paths {
            match &case.value {
                CanonicalValue::String(p) => {
                    if is_listed(missing, p.as_str()) {
                        assert(first_failing(input_fn.inputs@, cases, missing@, i as int));
                        return Err(
                            Failure::new(
                                ErrorKind::SourceUnreadable,
                                join("Path not found: ".to_owned(), p.as_str()),
                                case.span,
                            ),
                        );
                    }
                },
                _ => {},
            }
        }
        let index = if count == 1 {
            None
        } else {
            Some(i)
        };
        match generate_single_test(
            &test_ident,
            impl_name.as_str(),
            case,
            index,
            type_token.as_str(),
            is_tuple,
            arg_count,
        ) {
            Ok(test) => {
                tests.push(test);
            },
            Err(f) => {
                assert(first_failing(input_fn.inputs@, cases, missing@, i as int));
                return Err(f);
            },
        }
        i = i + 1;
    }
    let mut implementation = input_fn;
    implementation.ident = Ident { name: impl_name, span: fn_name.span };
    Ok(TestSet { implementation, tests })
}

/// A case with an empty suffix is named after the template alone where
/// it is the only case, and after the template and its index where there
/// are more.
pub proof fn lemma_empty_suffix_fallback(
    set: TestSet,
    input_fn: TestTemplate,
    cases: Seq<CaseView>,
    fn_name: Ident,
    explicit_type: Option<TypeExpr>,
    missing: Seq<String>,
    i: int,
)
    requires
        generated_set(set, input_fn, cases, fn_name, explicit_type, missing),
        0 <= i < cases.len(),
        case_suffix(cases[i]).len() == 0,
    ensures
        set.tests[i].name@ == if cases.len() == 1 {
            split_name(fn_name.name@).0
        } else {
            split_name(fn_name.name@).0 + seq!['_'] + decimal_text(i as nat)
        },
{
    assert(set.tests[i]@ == expected_test(input_fn, cases, fn_name.name@, explicit_type, i));
}

/// A case with a suffix is named after the template and the suffix,
/// whatever its index: two cases with the same suffix get the same name.
pub proof fn lemma_suffix_names(
    set: TestSet,
    input_fn: TestTemplate,
    cases: Seq<CaseView>,
    fn_name: Ident,
    explicit_type: Option<TypeExpr>,
    missing: Seq<String>,
    i: int,
)
    requires
        generated_set(set, input_fn, cases, fn_name, explicit_type, missing),
        0 <= i < cases.len(),
        case_suffix(cases[i]).len() > 0,
    ensures
        set.tests[i].name@ == split_name(fn_name.name@).0 + seq!['_', '_'] + case_suffix(cases[i]),
{
    assert(set.tests[i]@ == expected_test(input_fn, cases, fn_name.name@, explicit_type, i));
}

/// The texts of a list of strings.
pub open spec fn texts(strings: Seq<String>) -> Seq<Seq<char>> {
    Seq::new(strings.len(), |i: int| strings[i]@)
}

/// The paths that have to exist for the cases of a template: where the
/// template takes one parameter of a path type, the string values of the
/// cases, in case order; else none.
pub open spec fn checked_paths(inputs: Seq<FnArg>, cases: Seq<CaseView>) -> Seq<Seq<char>>
    decreases cases.len(),
{
    if !needs_existing_path(inputs) || cases.len() == 0 {
        Seq::empty()
    } else {
        match cases.last().value {
            ValueView::String(p) => checked_paths(inputs, cases.drop_last()).push(p),
            _ => checked_paths(inputs, cases.drop_last()),
        }
    }
}

/// A template with its cases, ready for its tests to be generated.
#[derive(Debug)]
pub struct Prepared {
    pub input_fn: TestTemplate,
    pub cases: Vec<ValueWithSpan>,
    pub explicit_type: Option<TypeExpr>,
}

impl Prepared {
    /// The paths that the caller has to look for before the tests are
    /// generated; those that do not exist are handed to `generate`.
    pub fn paths_to_check(&self) -> (r: Vec<String>)
        ensures
            texts(r@) == checked_paths(self.input_fn.inputs@, case_views(self.cases@)),
    {
        let ghost cases = case_views(self.cases@);
        let mut out: Vec<String> = Vec::new();
        if !needs_path(&self.input_fn.inputs) {
            assert(texts(out@) =~= Seq::empty());
            return out;
        }
        let mut i: usize = 0;
        assert(cases.take(0).len() == 0);
        assert(texts(out@) =~= Seq::empty());
        while i < self.cases.len()
            invariant
                i <= self.cases.len(),
                cases == case_views(self.cases@),
                needs_existing_path(self.input_fn.inputs@),
                texts(out@) == checked_paths(self.input_fn.inputs@, cases.take(i as int)),
            decreases self.cases.len() - i,
        {
            proof {
                assert(cases.take(i + 1).drop_last() =~= cases.take(i as int));
                assert(cases.take(i + 1).last() == self.cases[i as int]@);
            }
            let ghost before = texts(out@);
            match &self.cases[i].value {
                CanonicalValue::String(p) => {
                    out.push(p.clone());
                    assert(texts(out@) =~= before.push(p@));
                },
                _ => {},
            }
            i = i + 1;
        }
        assert(cases.take(self.cases.len() as int) =~= cases);
        out
    }

    /// Generates the tests of the template; `missing` lists the paths
    /// among those to check that do not exist.
    pub fn generate(self, missing: &Vec<String>) -> (r: Result<TestSet, Failure>)
        ensures
            expansion(
                r,
                self.input_fn,
                case_views(self.cases@),
                self.input_fn.ident,
                self.explicit_type,
                missing@,
            ),
    {
        let fn_name = Ident {
            name: self.input_fn.ident.name.clone(),
            span: self.input_fn.ident.span,
        };
        generate_test_set(self.input_fn, self.cases, fn_name, self.explicit_type, missing)
    }
}

} // verus!
