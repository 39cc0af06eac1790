//! Source resolution: from a source declaration and what was read for it
//! to the template's cases and its generated tests.

use crate::canonicalize::{case_views, CaseView, ValueWithSpan};
use crate::error::{failure, ErrorKind, Failure, FailureView, Span};
use crate::json::{decode_value, decoded, describe};
use crate::source::{parsed_source, source_span, source_target, LitStr, SourceCall, SourceType};
use crate::synth::{generated_set, generation_failure, Prepared, TestSet};
use crate::template::{as_template, is_path_type, is_vec_type, parse_item_fn, path_typed, sequence_typed, FnArg, Item, TestTemplate, TypeExpr};
use crate::text::{join, starts_with, to_uppercase, uppercase};
use crate::value::{lemma_array_view, views, CanonicalValue, ValueView};
use vstd::prelude::*;
use vstd::string::*;

verus! {

/// What the caller read for a source before the template is expanded.
#[derive(Debug)]
pub enum Fetched {
    /// Nothing: the source carries its text itself.
    NotNeeded,
    /// The project root is not set in the environment.
    NoProjectRoot,
    /// The path below the project root is not valid UTF-8.
    PathNotUtf8,
    /// The file at `full_path` was read.
    FileRead { full_path: String, content: String },
    /// The file at `full_path` could not be read.
    FileUnreadable { full_path: String, cause: String },
    /// The request failed or timed out.
    RequestFailed { cause: String },
    /// The response came with a status that is no success.
    BadStatus { status: String },
    /// The body of the response could not be read.
    BodyUnreadable { cause: String },
    /// The body of the response.
    Body { content: String },
    /// The glob pattern is not valid.
    BadPattern { cause: String },
    /// The paths that match the pattern, in order, each relative to the
    /// project root; `None` for one that is not below the root or not UTF-8.
    Matches { paths: Vec<Option<String>> },
}

/// How many seconds a network fetch may take.
pub fn fetch_timeout_secs() -> (secs: u64)
    ensures
        secs == 10,
{
    10
}

/// What a source supplies: text to decode, with the full path of the file
/// it was read from if it was, or paths.
#[derive(Debug)]
pub enum SourceContent {
    Text { content: String, file: Option<String> },
    Paths(Vec<String>),
}

/// The mathematical content of a [`SourceContent`].
pub enum ContentView {
    Text { content: Seq<char>, file: Option<Seq<char>> },
    Paths(Seq<Seq<char>>),
}

/// The paths of a list, as mathematical content.
pub open spec fn path_views(paths: Seq<String>) -> Seq<Seq<char>> {
    Seq::new(paths.len(), |i: int| paths[i]@)
}

impl View for SourceContent {
    type V = ContentView;

    open spec fn view(&self) -> ContentView {
        match self {
            SourceContent::Text { content, file } => ContentView::Text {
                content: content@,
                file: match file {
                    Some(path) => Some(path@),
                    None => None,
                },
            },
            SourceContent::Paths(paths) => ContentView::Paths(path_views(paths@)),
        }
    }
}

/// The matches that are paths below the root, in order.
pub open spec fn kept(paths: Seq<Option<String>>) -> Seq<Seq<char>>
    decreases paths.len(),
{
    if paths.len() == 0 {
        Seq::empty()
    } else {
        match paths.last() {
            Some(path) => kept(paths.drop_last()).push(path@),
            None => kept(paths.drop_last()),
        }
    }
}

/// The failure to obtain a source's content.
pub open spec fn unreadable(message: Seq<char>, span: Span) -> FailureView {
    failure(ErrorKind::SourceUnreadable, message, span)
}

/// The content of a file source.
pub open spec fn file_content(path: LitStr, fetched: Fetched) -> Result<ContentView, FailureView> {
    match fetched {
        Fetched::NoProjectRoot => Err(unreadable("CARGO_MANIFEST_DIR not set"@, path.span)),
        Fetched::PathNotUtf8 => Err(unreadable("Path contains invalid UTF-8"@, path.span)),
        Fetched::FileUnreadable { full_path, cause } => Err(
            unreadable("Could not read file "@ + full_path@ + ": "@ + cause@, path.span),
        ),
        Fetched::FileRead { full_path, content } => Ok(
            ContentView::Text { content: content@, file: Some(full_path@) },
        ),
        _ => Err(unreadable("No file was read for the source"@, path.span)),
    }
}

/// The content of a network source.
pub open spec fn response_content(url: LitStr, fetched: Fetched) -> Result<
    ContentView,
    FailureView,
> {
    match fetched {
        Fetched::RequestFailed { cause } => Err(
            unreadable("Could not fetch URL "@ + url.value@ + ": "@ + cause@, url.span),
        ),
        Fetched::BadStatus { status } => Err(
            unreadable(
                "Could not fetch URL "@ + url.value@ + ": status code "@ + status@,
                url.span,
            ),
        ),
        Fetched::BodyUnreadable { cause } => Err(
            unreadable("Could not read response from "@ + url.value@ + ": "@ + cause@, url.span),
        ),
        Fetched::Body { content } => Ok(ContentView::Text { content: content@, file: None }),
        _ => Err(unreadable("No response was fetched for the source"@, url.span)),
    }
}

/// The content of a glob source.
pub open spec fn mask_content(mask: LitStr, fetched: Fetched) -> Result<ContentView, FailureView> {
    match fetched {
        Fetched::NoProjectRoot => Err(unreadable("CARGO_MANIFEST_DIR not set"@, mask.span)),
        Fetched::PathNotUtf8 => Err(unreadable("Path mask contains invalid UTF-8"@, mask.span)),
        Fetched::BadPattern { cause } => Err(
            failure(ErrorKind::MalformedSource, "Invalid glob pattern: "@ + cause@, mask.span),
        ),
        Fetched::Matches { paths } => if paths.len() == 0 {
            Err(
                failure(
                    ErrorKind::NoMatches,
                    "No files matched pattern: "@ + mask.value@,
                    mask.span,
                ),
            )
        } else {
            Ok(ContentView::Paths(kept(paths@)))
        },
        _ => Err(unreadable("No paths were matched for the source"@, mask.span)),
    }
}

/// The content that a source supplies, given what was read for it.
pub open spec fn fetched_content(source: SourceType, fetched: Fetched) -> Result<
    ContentView,
    FailureView,
> {
    match source {
        SourceType::JsonFile(path, _, _) => file_content(path, fetched),
        SourceType::JsonString(text, _, _) => Ok(
            ContentView::Text { content: text.value@, file: None },
        ),
        SourceType::JsonResponse(url, _, _) => response_content(url, fetched),
        SourceType::PathMask(mask, _) => mask_content(mask, fetched),
    }
}

fn source_failure(message: String, span: Span) -> (f: Failure)
    ensures
        f@ == unreadable(message@, span),
{
    Failure::new(ErrorKind::SourceUnreadable, message, span)
}

fn keep_paths(paths: Vec<Option<String>>) -> (r: Vec<String>)
    ensures
        path_views(r@) == kept(paths@),
{
    let mut out: Vec<String> = Vec::new();
    let mut i: usize = 0;
    assert(paths@.take(0) =~= Seq::empty());
    assert(path_views(out@) =~= kept(paths@.take(0)));
    while i < paths.len()
        invariant
            i <= paths.len(),
            path_views(out@) == kept(paths@.take(i as int)),
        decreases paths.len() - i,
    {
        proof {
            assert(paths@.take(i + 1).drop_last() =~= paths@.take(i as int));
            assert(paths@.take(i + 1).last() == paths@[i as int]);
        }
        let ghost before = path_views(out@);
        match &paths[i] {
            Some(path) => {
                out.push(path.clone());
                assert(path_views(out@) =~= before.push(path@));
            },
            None => {},
        }
        i = i + 1;
    }
    assert(paths@.take(paths.len() as int) =~= paths@);
    out
}

/// Takes what was read for a source as the source's content.
pub fn source_content(source: &SourceType, fetched: Fetched) -> (r: Result<
    SourceContent,
    Failure,
>)
    ensures
        match r {
            Ok(content) => fetched_content(*source, fetched) == Ok::<ContentView, FailureView>(
                content@,
            ),
            Err(f) => fetched_content(*source, fetched) == Err::<ContentView, FailureView>(f@),
        },
{
    match source {
        SourceType::JsonFile(path, _, _) => match fetched {
            Fetched::NoProjectRoot => Err(
                source_failure("CARGO_MANIFEST_DIR not set".to_owned(), path.span),
            ),
            Fetched::PathNotUtf8 => Err(
                source_failure("Path contains invalid UTF-8".to_owned(), path.span),
            ),
            Fetched::FileUnreadable { full_path, cause } => {
                let mut message = "Could not read file ".to_owned();
                message.append(full_path.as_str());
                message.append(": ");
                message.append(cause.as_str());
                Err(source_failure(message, path.span))
            },
            Fetched::FileRead { full_path, content } => Ok(
                SourceContent::Text { content, file: Some(full_path) },
            ),
            _ => Err(source_failure("No file was read for the source".to_owned(), path.span)),
        },
        SourceType::JsonString(text, _, _) => Ok(
            SourceContent::Text { content: text.value.clone(), file: None },
        ),
        SourceType::JsonResponse(url, _, _) => match fetched {
            Fetched::RequestFailed { cause } => {
                let mut message = "Could not fetch URL ".to_owned();
                message.append(url.value.as_str());
                message.append(": ");
                message.append(cause.as_str());
                Err(source_failure(message, url.span))
            },
            Fetched::BadStatus { status } => {
                let mut message = "Could not fetch URL ".to_owned();
                message.append(url.value.as_str());
                message.append(": status code ");
                message.append(status.as_str());
                Err(source_failure(message, url.span))
            },
            Fetched::BodyUnreadable { cause } => {
                let mut message = "Could not read response from ".to_owned();
                message.append(url.value.as_str());
                message.append(": ");
                message.append(cause.as_str());
                Err(source_failure(message, url.span))
            },
            Fetched::Body { content } => Ok(SourceContent::Text { content, file: None }),
            _ => Err(
                source_failure("No response was fetched for the source".to_owned(), url.span),
            ),
        },
        SourceType::PathMask(mask, _) => match fetched {
            Fetched::NoProjectRoot => Err(
                source_failure("CARGO_MANIFEST_DIR not set".to_owned(), mask.span),
            ),
            Fetched::PathNotUtf8 => Err(
                source_failure("Path mask contains invalid UTF-8".to_owned(), mask.span),
            ),
            Fetched::BadPattern { cause } => Err(
                Failure::new(
                    ErrorKind::MalformedSource,
                    join("Invalid glob pattern: ".to_owned(), cause.as_str()),
                    mask.span,
                ),
            ),
            Fetched::Matches { paths } => {
                if paths.len() == 0 {
                    Err(
                        Failure::new(
                            ErrorKind::NoMatches,
                            join("No files matched pattern: ".to_owned(), mask.value.as_str()),
                            mask.span,
                        ),
                    )
                } else {
                    Ok(SourceContent::Paths(keep_paths(paths)))
                }
            },
            _ => Err(source_failure("No paths were matched for the source".to_owned(), mask.span)),
        },
    }
}

/// Whether every value of a list is an array.
pub open spec fn all_arrays(items: Seq<ValueView>) -> bool {
    forall|i: int| 0 <= i < items.len() ==> (#[trigger] items[i]) is Array
}

/// The values of the cases that a decoded value stands for. An array
/// stands for one case per element; but where the target is a sequence and
/// some element is no array, the whole array is the value of one case.
/// Any other value is the value of one case.
pub open spec fn case_values(value: ValueView, is_sequence: bool) -> Seq<ValueView> {
    match value {
        ValueView::Array(items) => if is_sequence && !all_arrays(items) {
            seq![value]
        } else {
            items
        },
        _ => seq![value],
    }
}

/// The cases that a decoded value stands for, all declared at `span`.
pub open spec fn source_cases(value: ValueView, is_sequence: bool, span: Span) -> Seq<CaseView> {
    Seq::new(
        case_values(value, is_sequence).len(),
        |i: int| CaseView { value: case_values(value, is_sequence)[i], span, suffix: None },
    )
}

fn every_item_is_array(items: &Vec<CanonicalValue>) -> (r: bool)
    ensures
        r == all_arrays(views(items@)),
{
    let mut i: usize = 0;
    while i < items.len()
        invariant
            i <= items.len(),
            forall|j: int| 0 <= j < i ==> (#[trigger] views(items@)[j]) is Array,
        decreases items.len() - i,
    {
        match &items[i] {
            CanonicalValue::Array(_) => {},
            _ => {
                assert(!(views(items@)[i as int] is Array));
                return false;
            },
        }
        i = i + 1;
    }
    true
}

/// Resolves what a decoded value stands for: many cases, or one case
/// whose value is a sequence.
pub fn resolve_cases(value: CanonicalValue, is_sequence: bool, span: Span) -> (r: Vec<
    ValueWithSpan,
>)
    ensures
        case_views(r@) == source_cases(value@, is_sequence, span),
{
    let ghost whole = value@;
    let mut cases: Vec<ValueWithSpan> = Vec::new();
    match value {
        CanonicalValue::Array(items) => {
            proof {
                lemma_array_view(items);
            }
            if is_sequence && !every_item_is_array(&items) {
                cases.push(
                    ValueWithSpan { value: CanonicalValue::Array(items), span, suffix: None },
                );
                assert(case_views(cases@) =~= source_cases(whole, is_sequence, span));
            } else {
                let ghost all = views(items@);
                for item in it: items
                    invariant
                        it.seq() == items@,
                        all == views(items@),
                        cases.len() == it.index(),
                        forall|j: int|
                            0 <= j < cases.len() ==> (#[trigger] cases[j])@ == (CaseView {
                                value: all[j],
                                span,
                                suffix: None,
                            }),
                {
                    cases.push(ValueWithSpan { value: item, span, suffix: None });
                }
                assert(case_views(cases@) =~= source_cases(whole, is_sequence, span));
            }
        },
        other => {
            cases.push(ValueWithSpan { value: other, span, suffix: None });
            assert(case_views(cases@) =~= source_cases(whole, is_sequence, span));
        },
    }
    cases
}

/// How the message begins when a source's text cannot be decoded.
pub open spec fn malformed_prefix(file: Option<LitStr>) -> Seq<char> {
    match file {
        Some(path) => "Could not parse JSON file "@ + path.value@ + ": "@,
        None => "Could not parse JSON: "@,
    }
}

/// Whether `f` is the failure to decode a source's text: reported at the
/// file's path if the text came from a file, else where the source's kind
/// was named.
pub open spec fn malformed(f: FailureView, file: Option<LitStr>, span: Span) -> bool {
    &&& f.kind == ErrorKind::MalformedSource
    &&& f.span == match file {
        Some(path) => path.span,
        None => span,
    }
    &&& starts_with(f.message, malformed_prefix(file))
}

/// The failure to decode a source's text, with the decoder's own words
/// after the prefix.
pub fn malformed_source(file: &Option<LitStr>, span: Span, detail: &str) -> (f: Failure)
    ensures
        f@ == failure(
            ErrorKind::MalformedSource,
            malformed_prefix(*file) + detail@,
            match *file {
                Some(path) => path.span,
                None => span,
            },
        ),
        malformed(f@, *file, span),
{
    let (mut message, at) = match file {
        Some(path) => {
            let mut m = "Could not parse JSON file ".to_owned();
            m.append(path.value.as_str());
            m.append(": ");
            (m, path.span)
        },
        None => ("Could not parse JSON: ".to_owned(), span),
    };
    let ghost prefix = message@;
    message.append(detail);
    assert(message@.subrange(0, prefix.len() as int) =~= prefix);
    Failure::new(ErrorKind::MalformedSource, message, at)
}

/// Decodes the text of a source into a canonical value.
pub fn decode_source(text: &str, file: &Option<LitStr>, span: Span) -> (r: Result<
    CanonicalValue,
    Failure,
>)
    ensures
        match r {
            Ok(v) => decoded(text@) == Some(v@) && v@.well_formed(),
            Err(f) => decoded(text@) is None && malformed(f@, *file, span),
        },
{
    match decode_value(text) {
        Ok(v) => Ok(v),
        Err(e) => {
            let detail = describe(&e);
            Err(malformed_source(file, span, detail.as_str()))
        },
    }
}

/// The failure of a glob source on a template that does not take exactly
/// one parameter of a path type; a receiver declares no type and is refused
/// at its own location.
pub open spec fn mask_refusal(source: SourceType, template: TestTemplate) -> Option<FailureView> {
    if source is PathMask {
        if template.inputs.len() != 1 {
            Some(
                failure(
                    ErrorKind::InvalidParameterKind,
                    "PathMask requires exactly one parameter"@,
                    template.inputs_span,
                ),
            )
        } else {
            match template.inputs[0] {
                FnArg::Typed { ty } => if path_typed(ty) {
                    None
                } else {
                    Some(
                        failure(
                            ErrorKind::InvalidParameterKind,
                            "PathMask requires a &Path or PathBuf parameter"@,
                            ty.span,
                        ),
                    )
                },
                FnArg::Receiver { span } => Some(
                    failure(
                        ErrorKind::InvalidParameterKind,
                        "PathMask requires a &Path or PathBuf parameter"@,
                        span,
                    ),
                ),
            }
        }
    } else {
        None
    }
}

/// The target type that is known before the tests are generated: the one
/// given with the source, else that of the only parameter. A template
/// without parameters is refused; with several, the tuple of their types
/// is worked out when the tests are generated.
pub open spec fn resolved_type(source: SourceType, template: TestTemplate) -> Result<
    Option<TypeExpr>,
    FailureView,
> {
    match source_target(source) {
        Some(ty) => Ok(Some(ty)),
        None => if template.inputs.len() == 0 {
            Err(
                failure(
                    ErrorKind::UntypedReceiver,
                    "test generation from source requires at least one parameter"@,
                    template.inputs_span,
                ),
            )
        } else if template.inputs.len() == 1 {
            match template.inputs[0] {
                FnArg::Typed { ty } => Ok(Some(ty)),
                FnArg::Receiver { .. } => Ok(None),
            }
        } else {
            Ok(None)
        },
    }
}

fn check_mask(source: &SourceType, template: &TestTemplate) -> (r: Option<Failure>)
    ensures
        match r {
            Some(f) => mask_refusal(*source, *template) == Some(f@),
            None => mask_refusal(*source, *template) is None,
        },
{
    match source {
        SourceType::PathMask(_, _) => {
            if template.inputs.len() != 1 {
                return Some(
                    Failure::with_text(
                        ErrorKind::InvalidParameterKind,
                        "PathMask requires exactly one parameter",
                        template.inputs_span,
                    ),
                );
            }
            match &template.inputs[0] {
                FnArg::Typed { ty } => {
                    if is_path_type(ty) {
                        None
                    } else {
                        Some(
                            Failure::with_text(
                                ErrorKind::InvalidParameterKind,
                                "PathMask requires a &Path or PathBuf parameter",
                                ty.span,
                            ),
                        )
                    }
                },
                FnArg::Receiver { span } => Some(
                    Failure::with_text(
                        ErrorKind::InvalidParameterKind,
                        "PathMask requires a &Path or PathBuf parameter",
                        *span,
                    ),
                ),
            }
        },
        _ => None,
    }
}

fn resolve_type(source: &SourceType, template: &TestTemplate) -> (r: Result<
    Option<TypeExpr>,
    Failure,
>)
    ensures
        match r {
            Ok(ty) => resolved_type(*source, *template) == Ok::<Option<TypeExpr>, FailureView>(ty),
            Err(f) => resolved_type(*source, *template) == Err::<Option<TypeExpr>, FailureView>(
                f@,
            ),
        },
{
    let given = match source {
        SourceType::JsonFile(_, ty, _) => ty,
        SourceType::JsonString(_, ty, _) => ty,
        SourceType::JsonResponse(_, ty, _) => ty,
        SourceType::PathMask(_, _) => &None,
    };
    match given {
        Some(ty) => Ok(Some(ty.duplicate())),
        None => {
            if template.inputs.len() == 0 {
                Err(
                    Failure::with_text(
                        ErrorKind::UntypedReceiver,
                        "test generation from source requires at least one parameter",
                        template.inputs_span,
                    ),
                )
            } else if template.inputs.len() == 1 {
                match &template.inputs[0] {
                    FnArg::Typed { ty } => Ok(Some(ty.duplicate())),
                    FnArg::Receiver { .. } => Ok(None),
                }
            } else {
                Ok(None)
            }
        },
    }
}

/// A named constant that holds the raw text of a file-backed source.
#[derive(Debug)]
pub struct DataConst {
    pub name: String,
    /// The full path of the file whose text the constant embeds.
    pub path: String,
}

/// What a template with a source declaration expands to.
#[derive(Debug)]
pub struct SourceExpansion {
    pub data_const: Option<DataConst>,
    pub set: TestSet,
}

/// What is settled before a source's content is decoded.
pub struct Plan {
    pub source: SourceType,
    pub template: TestTemplate,
    pub explicit: Option<TypeExpr>,
    pub content: ContentView,
}

/// The failure to read a source declaration.
pub open spec fn not_a_source(f: FailureView) -> FailureView {
    failure(f.kind, "Expected [`rust_test::SourceType`] variant: "@ + f.message, f.span)
}

/// What is settled for a template with a source declaration: the
/// declaration is read, then the item; a glob source is checked against
/// the parameters before its matches are looked at; then comes the
/// content, then the target type.
pub open spec fn planned(call: SourceCall, item: Item, fetched: Fetched) -> Result<
    Plan,
    FailureView,
> {
    match parsed_source(call) {
        Err(f) => Err(not_a_source(f)),
        Ok(source) => match as_template(item) {
            Err(f) => Err(f),
            Ok(template) => match mask_refusal(source, template) {
                Some(f) => Err(f),
                None => match fetched_content(source, fetched) {
                    Err(f) => Err(f),
                    Ok(content) => match resolved_type(source, template) {
                        Err(f) => Err(f),
                        Ok(explicit) => Ok(Plan { source, template, explicit, content }),
                    },
                },
            },
        },
    }
}

/// The array of the paths, each as a string.
pub open spec fn paths_value(paths: Seq<Seq<char>>) -> ValueView {
    ValueView::Array(Seq::new(paths.len(), |i: int| ValueView::String(paths[i])))
}

/// The value that a source's content holds, if its text can be decoded.
pub open spec fn content_value(content: ContentView) -> Option<ValueView> {
    match content {
        ContentView::Text { content, .. } => decoded(content),
        ContentView::Paths(paths) => Some(paths_value(paths)),
    }
}

/// The path literal of a file-backed plan.
pub open spec fn plan_file(plan: Plan) -> Option<LitStr> {
    match plan.source {
        SourceType::JsonFile(path, _, _) => if plan.content matches ContentView::Text {
            file: Some(_),
            ..
        } {
            Some(path)
        } else {
            None
        },
        _ => None,
    }
}

/// Whether the plan's target type is a sequence.
pub open spec fn plan_is_sequence(plan: Plan) -> bool {
    plan.explicit matches Some(ty) && sequence_typed(ty)
}

/// The name and the path of the constant of a file-backed plan.
pub open spec fn plan_const(plan: Plan) -> Option<(Seq<char>, Seq<char>)> {
    match plan.content {
        ContentView::Text { file: Some(path), .. } => Some(
            (uppercase(plan.template.ident.name@) + "_DATA"@, path),
        ),
        _ => None,
    }
}

/// A constant, as mathematical content.
pub open spec fn const_view(data_const: Option<DataConst>) -> Option<(Seq<char>, Seq<char>)> {
    match data_const {
        Some(c) => Some((c.name@, c.path@)),
        None => None,
    }
}

/// Whether `r` is the outcome of expanding what was planned: the failure
/// of the plan; else the failure to decode the content; else the tests of
/// the cases that the decoded value stands for, with the constant of a
/// file-backed source.
pub open spec fn sourced(
    r: Result<SourceExpansion, Failure>,
    plan: Result<Plan, FailureView>,
    missing: Seq<String>,
) -> bool {
    match plan {
        Err(f) => r matches Err(e) && e@ == f,
        Ok(plan) => match content_value(plan.content) {
            None => r matches Err(e) && malformed(e@, plan_file(plan), source_span(plan.source)),
            Some(value) => {
                let cases = source_cases(value, plan_is_sequence(plan), source_span(plan.source));
                match r {
                    Ok(expanded) => generated_set(
                        expanded.set,
                        plan.template,
                        cases,
                        plan.template.ident,
                        plan.explicit,
                        missing,
                    ) && const_view(expanded.data_const) == plan_const(plan),
                    Err(e) => generation_failure(
                        e@,
                        plan.template,
                        cases,
                        plan.template.ident,
                        plan.explicit,
                        missing,
                    ),
                }
            },
        },
    }
}

fn value_of_paths(paths: Vec<String>) -> (r: CanonicalValue)
    ensures
        r@ == paths_value(path_views(paths@)),
{
    let mut items: Vec<CanonicalValue> = Vec::new();
    for path in it: paths
        invariant
            it.seq() == paths@,
            items.len() == it.index(),
            forall|j: int|
                0 <= j < items.len() ==> (#[trigger] items[j])@ == ValueView::String(paths@[j]@),
    {
        items.push(CanonicalValue::String(path));
    }
    proof {
        lemma_array_view(items);
        assert(views(items@) =~= Seq::new(
            path_views(paths@).len(),
            |i: int| ValueView::String(path_views(paths@)[i]),
        ));
    }
    CanonicalValue::Array(items)
}

fn file_of(source: &SourceType, has_file: bool) -> (r: Option<LitStr>)
    ensures
        r == match *source {
            SourceType::JsonFile(path, _, _) => if has_file {
                Some(path)
            } else {
                None
            },
            _ => None,
        },
{
    match source {
        SourceType::JsonFile(path, _, _) => if has_file {
            Some(path.duplicate())
        } else {
            None
        },
        _ => None,
    }
}

/// A template with the cases of its source and, for a file-backed
/// source, the constant that embeds the file.
#[derive(Debug)]
pub struct PreparedSource {
    pub prepared: Prepared,
    pub data_const: Option<DataConst>,
}

/// Whether `r` is what was planned, prepared: the failure of the plan;
/// else the failure to decode the content; else the template with the
/// cases that the decoded value stands for, the target type and the
/// constant of a file-backed source.
pub open spec fn prepared_source(
    r: Result<PreparedSource, Failure>,
    plan: Result<Plan, FailureView>,
) -> bool {
    match plan {
        Err(f) => r matches Err(e) && e@ == f,
        Ok(plan) => match content_value(plan.content) {
            None => r matches Err(e) && malformed(e@, plan_file(plan), source_span(plan.source)),
            Some(value) => r matches Ok(p) && p.prepared.input_fn == plan.template && case_views(
                p.prepared.cases@,
            ) == source_cases(value, plan_is_sequence(plan), source_span(plan.source))
                && p.prepared.explicit_type == plan.explicit && const_view(p.data_const)
                == plan_const(plan),
        },
    }
}

fn prepare_plan(
    source: SourceType,
    template: TestTemplate,
    explicit: Option<TypeExpr>,
    content: SourceContent,
) -> (r: Result<PreparedSource, Failure>)
    ensures
        prepared_source(
            r,
            Ok::<Plan, FailureView>(Plan { source, template, explicit, content: content@ }),
        ),
{
    let span = source.span();
    let is_sequence = match &explicit {
        Some(ty) => is_vec_type(ty),
        None => false,
    };
    let (value, data_const) = match content {
        SourceContent::Text { content: text, file } => {
            let lit = file_of(&source, file.is_some());
            let value = match decode_source(text.as_str(), &lit, span) {
                Ok(v) => v,
                Err(f) => {
                    return Err(f);
                },
            };
            let data_const = match file {
                Some(path) => {
                    let mut name = to_uppercase(template.ident.name.as_str());
                    name.append("_DATA");
                    Some(DataConst { name, path })
                },
                None => None,
            };
            (value, data_const)
        },
        SourceContent::Paths(paths) => (value_of_paths(paths), None),
    };
    let cases = resolve_cases(value, is_sequence, span);
    Ok(
        PreparedSource {
            prepared: Prepared { input_fn: template, cases, explicit_type: explicit },
            data_const,
        },
    )
}

impl PreparedSource {
    /// Generates the tests; `missing` lists the paths among those to
    /// check that do not exist.
    pub fn generate(self, missing: &Vec<String>) -> (r: Result<SourceExpansion, Failure>)
        ensures
            match r {
                Ok(expanded) => generated_set(
                    expanded.set,
                    self.prepared.input_fn,
                    case_views(self.prepared.cases@),
                    self.prepared.input_fn.ident,
                    self.prepared.explicit_type,
                    missing@,
                ) && expanded.data_const == self.data_const,
                Err(e) => generation_failure(
                    e@,
                    self.prepared.input_fn,
                    case_views(self.prepared.cases@),
                    self.prepared.input_fn.ident,
                    self.prepared.explicit_type,
                    missing@,
                ),
            },
    {
        let data_const = self.data_const;
        match self.prepared.generate(missing) {
            Ok(set) => Ok(SourceExpansion { data_const, set }),
            Err(f) => Err(f),
        }
    }
}

/// Reads a source declaration for a template and takes what was read for
/// it as the template's cases.
pub fn prepare_source(call: &SourceCall, item: Item, fetched: Fetched) -> (r: Result<
    PreparedSource,
    Failure,
>)
    ensures
        prepared_source(r, planned(*call, item, fetched)),
{
    let source = match SourceType::parse(call) {
        Ok(source) => source,
        Err(f) => {
            let message = join(
                "Expected [`rust_test::SourceType`] variant: ".to_owned(),
                f.message.as_str(),
            );
            return Err(Failure::new(f.kind, message, f.span));
        },
    };
    let template = match parse_item_fn(item) {
        Ok(template) => template,
        Err(f) => {
            return Err(f);
        },
    };
    match check_mask(&source, &template) {
        Some(f) => {
            return Err(f);
        },
        None => {},
    }
    let content = match source_content(&source, fetched) {
        Ok(content) => content,
        Err(f) => {
            return Err(f);
        },
    };
    let explicit = match resolve_type(&source, &template) {
        Ok(ty) => ty,
        Err(f) => {
            return Err(f);
        },
    };
    prepare_plan(source, template, explicit, content)
}

/// Expands a template with the cases of one source declaration. The
/// caller reads the file, fetches the URL or matches the pattern that the
/// declaration names, and hands over what came of it.
pub fn test_params_source(
    call: &SourceCall,
    item: Item,
    fetched: Fetched,
    missing: &Vec<String>,
) -> (r: Result<SourceExpansion, Failure>)
    ensures
        sourced(r, planned(*call, item, fetched), missing@),
{
    match prepare_source(call, item, fetched) {
        Ok(prepared) => prepared.generate(missing),
        Err(f) => Err(f),
    }
}

/// What is settled for a template with a file source under the older
/// declaration, which knows no other kind of source and takes exactly one
/// typed parameter unless the type is given with the source.
pub open spec fn planned_from_file(call: SourceCall, item: Item, fetched: Fetched) -> Result<
    Plan,
    FailureView,
> {
    match parsed_source(call) {
        Err(f) => Err(not_a_source(f)),
        Ok(source) => match as_template(item) {
            Err(f) => Err(f),
            Ok(template) => match source {
                SourceType::JsonFile(path, given, span) => {
                    let explicit = match given {
                        Some(ty) => Some(ty),
                        None => if template.inputs.len() == 1 {
                            match template.inputs[0] {
                                FnArg::Typed { ty } => Some(ty),
                                FnArg::Receiver { .. } => None,
                            }
                        } else {
                            None
                        },
                    };
                    if explicit is None {
                        Err(
                            failure(
                                ErrorKind::UntypedReceiver,
                                "test generation from source supports only 1 type in parameters"@,
                                template.inputs_span,
                            ),
                        )
                    } else {
                        match fetched_content(source, fetched) {
                            Err(f) => Err(f),
                            Ok(content) => Ok(Plan { source, template, explicit, content }),
                        }
                    }
                },
                _ => Err(
                    failure(
                        ErrorKind::UnsupportedExpression,
                        "Expected [`rust_test::SourceType`] variant: Unknown variant"@,
                        source_span(source),
                    ),
                ),
            },
        },
    }
}

/// Reads a file source for a template under the older declaration and
/// takes what was read as the template's cases.
pub fn prepare_file_source(call: &SourceCall, item: Item, fetched: Fetched) -> (r: Result<
    PreparedSource,
    Failure,
>)
    ensures
        prepared_source(r, planned_from_file(*call, item, fetched)),
{
    let source = match SourceType::parse(call) {
        Ok(source) => source,
        Err(f) => {
            let message = join(
                "Expected [`rust_test::SourceType`] variant: ".to_owned(),
                f.message.as_str(),
            );
            return Err(Failure::new(f.kind, message, f.span));
        },
    };
    let template = match parse_item_fn(item) {
        Ok(template) => template,
        Err(f) => {
            return Err(f);
        },
    };
    let explicit = match &source {
        SourceType::JsonFile(_, given, _) => match given {
            Some(ty) => Some(ty.duplicate()),
            None => if template.inputs.len() == 1 {
                match &template.inputs[0] {
                    FnArg::Typed { ty } => Some(ty.duplicate()),
                    FnArg::Receiver { .. } => None,
                }
            } else {
                None
            },
        },
        _ => {
            return Err(
                Failure::with_text(
                    ErrorKind::UnsupportedExpression,
                    "Expected [`rust_test::SourceType`] variant: Unknown variant",
                    source.span(),
                ),
            );
        },
    };
    if explicit.is_none() {
        return Err(
            Failure::with_text(
                ErrorKind::UntypedReceiver,
                "test generation from source supports only 1 type in parameters",
                template.inputs_span,
            ),
        );
    }
    let content = match source_content(&source, fetched) {
        Ok(content) => content,
        Err(f) => {
            return Err(f);
        },
    };
    prepare_plan(source, template, explicit, content)
}

/// Expands a template with the cases of a file of structured text, under
/// the older declaration.
pub fn test_case_source(
    call: &SourceCall,
    item: Item,
    fetched: Fetched,
    missing: &Vec<String>,
) -> (r: Result<SourceExpansion, Failure>)
    ensures
        sourced(r, planned_from_file(*call, item, fetched), missing@),
{
    match prepare_file_source(call, item, fetched) {
        Ok(prepared) => prepared.generate(missing),
        Err(f) => Err(f),
    }
}

} // verus!
