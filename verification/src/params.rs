//! Inline cases: the values written in a `test_params` declaration.

use crate::canonicalize::{canon, case_views, expr_to_value, CaseView, Outcome, ValueWithSpan};
use crate::error::{collected, failure, lemma_first_error_at, lemma_first_error_none, ErrorKind, Failure, FailureView, Span};
use crate::synth::{expansion, Prepared, TestSet};
use crate::syntax::Expr;
use crate::template::{as_template, parse_item_fn, Item, TestTemplate};
use crate::text::{decimal_text, push_decimal};
use crate::value::{lemma_array_view, views, CanonicalValue, ValueView};
use vstd::prelude::*;
use vstd::string::*;

verus! {

/// One argument of an inline declaration.
#[derive(Debug)]
pub enum ParamArg {
    /// An expression.
    Single(Expr),
    /// Expressions between round brackets: a tuple.
    Group(Vec<Expr>),
}

/// An inline declaration as written: its arguments and where it stands.
#[derive(Debug)]
pub struct ParamsCall {
    pub args: Vec<ParamArg>,
    pub span: Span,
}

/// The values of an inline declaration.
#[derive(Debug)]
pub struct TestCaseArgs {
    pub values: Vec<CanonicalValue>,
}

/// What each expression of a list canonicalizes to.
pub open spec fn expr_outcomes(exprs: Seq<Expr>) -> Seq<Outcome> {
    Seq::new(exprs.len(), |i: int| canon(exprs[i]))
}

/// What an argument canonicalizes to: an expression to its value, a group
/// to the array of its values.
pub open spec fn arg_outcome(arg: ParamArg) -> Outcome {
    match arg {
        ParamArg::Single(e) => canon(e),
        ParamArg::Group(exprs) => match collected(expr_outcomes(exprs@)) {
            Ok(values) => Ok(ValueView::Array(values)),
            Err(f) => Err(f),
        },
    }
}

/// What each argument of a list canonicalizes to.
pub open spec fn arg_outcomes(args: Seq<ParamArg>) -> Seq<Outcome> {
    Seq::new(args.len(), |i: int| arg_outcome(args[i]))
}

/// The values of a declaration's arguments; a declaration without
/// arguments is refused.
pub open spec fn params_values(call: ParamsCall) -> Result<Seq<ValueView>, FailureView> {
    match collected(arg_outcomes(call.args@)) {
        Err(f) => Err(f),
        Ok(values) => if values.len() == 0 {
            Err(
                failure(
                    ErrorKind::ArityMismatch,
                    "Expected at least one test case value"@,
                    call.span,
                ),
            )
        } else {
            Ok(values)
        },
    }
}

/// The message for a declaration that supplies the wrong number of values.
pub open spec fn arity_message(expected: nat, supplied: nat) -> Seq<char> {
    "Test function expects "@ + decimal_text(expected) + " arguments, but "@ + decimal_text(
        supplied,
    ) + " were provided in #[test_params]"@
}

/// The value of the one case that a declaration supplies. With several
/// parameters, exactly as many values are needed and make up a tuple; with
/// one parameter, several values make up a sequence and one value stands
/// for itself.
pub open spec fn inline_case(template: TestTemplate, values: Seq<ValueView>) -> Result<
    ValueView,
    FailureView,
> {
    let count = template.inputs.len();
    if count > 1 {
        if values.len() != count {
            Err(
                failure(
                    ErrorKind::ArityMismatch,
                    arity_message(count as nat, values.len()),
                    template.inputs_span,
                ),
            )
        } else {
            Ok(ValueView::Array(values))
        }
    } else if count == 1 {
        if values.len() == 1 {
            Ok(values[0])
        } else {
            Ok(ValueView::Array(values))
        }
    } else {
        Err(
            failure(
                ErrorKind::UntypedReceiver,
                "Test function must have at least one argument when using #[test_params]"@,
                template.inputs_span,
            ),
        )
    }
}

fn values_of(exprs: &Vec<Expr>) -> (r: Result<Vec<CanonicalValue>, Failure>)
    ensures
        match r {
            Ok(values) => collected(expr_outcomes(exprs@)) == Ok::<Seq<ValueView>, FailureView>(
                views(values@),
            ) && forall|i: int| 0 <= i < values.len() ==> (#[trigger] values[i])@.well_formed(),
            Err(f) => collected(expr_outcomes(exprs@)) == Err::<Seq<ValueView>, FailureView>(f@),
        },
{
    let ghost outcomes = expr_outcomes(exprs@);
    let mut values: Vec<CanonicalValue> = Vec::new();
    let mut i: usize = 0;
    while i < exprs.len()
        invariant
            i <= exprs.len(),
            outcomes == expr_outcomes(exprs@),
            values.len() == i,
            forall|j: int|
                0 <= j < i ==> #[trigger] outcomes[j] == Ok::<ValueView, FailureView>(values[j]@),
            forall|j: int| 0 <= j < i ==> (#[trigger] values[j])@.well_formed(),
        decreases exprs.len() - i,
    {
        match expr_to_value(&exprs[i]) {
            Ok(v) => {
                values.push(v);
            },
            Err(f) => {
                proof {
                    assert(outcomes[i as int] is Err);
                    lemma_first_error_at(outcomes, i as int);
                }
                return Err(f);
            },
        }
        i = i + 1;
    }
    proof {
        lemma_first_error_none(outcomes);
        assert(collected(outcomes)->Ok_0 =~= views(values@));
    }
    Ok(values)
}

impl TestCaseArgs {
    /// Reads the values of an inline declaration, argument by argument.
    pub fn parse(call: &ParamsCall) -> (r: Result<TestCaseArgs, Failure>)
        ensures
            match r {
                Ok(args) => params_values(*call) == Ok::<Seq<ValueView>, FailureView>(
                    views(args.values@),
                ) && forall|i: int|
                    0 <= i < args.values.len() ==> (#[trigger] args.values[i])@.well_formed(),
                Err(f) => params_values(*call) == Err::<Seq<ValueView>, FailureView>(f@),
            },
    {
        let ghost outcomes = arg_outcomes(call.args@);
        let mut values: Vec<CanonicalValue> = Vec::new();
        let mut i: usize = 0;
        while i < call.args.len()
            invariant
                i <= call.args.len(),
                outcomes == arg_outcomes(call.args@),
                values.len() == i,
                forall|j: int|
                    0 <= j < i ==> #[trigger] outcomes[j] == Ok::<ValueView, FailureView>(
                        values[j]@,
                    ),
                forall|j: int| 0 <= j < i ==> (#[trigger] values[j])@.well_formed(),
            decreases call.args.len() - i,
        {
            let one = match &call.args[i] {
                ParamArg::Single(e) => expr_to_value(e),
                ParamArg::Group(exprs) => match values_of(exprs) {
                    Ok(items) => {
                        proof {
                            lemma_array_view(items);
                            assert forall|k: int| 0 <= k < views(items@).len() implies (
                            #[trigger] views(items@)[k]).well_formed() by {
                                assert(items[k]@.well_formed());
                            }
                        }
                        Ok(CanonicalValue::Array(items))
                    },
                    Err(f) => Err(f),
                },
            };
            match one {
                Ok(v) => {
                    values.push(v);
                },
                Err(f) => {
                    proof {
                        assert(outcomes[i as int] is Err);
                        lemma_first_error_at(outcomes, i as int);
                    }
                    return Err(f);
                },
            }
            i = i + 1;
        }
        proof {
            lemma_first_error_none(outcomes);
            assert(collected(outcomes)->Ok_0 =~= views(values@));
        }
        if values.len() == 0 {
            return Err(
                Failure::with_text(
                    ErrorKind::ArityMismatch,
                    "Expected at least one test case value",
                    call.span,
                ),
            );
        }
        Ok(TestCaseArgs { values })
    }
}

/// The one case of an inline declaration.
pub open spec fn inline_cases(value: ValueView, span: Span) -> Seq<CaseView> {
    seq![CaseView { value, span, suffix: None }]
}

/// Whether `r` is what an inline declaration prepares for a template: the
/// failure to read the item or the values or to pack them, else the
/// template with its one case and no explicit type.
pub open spec fn prepared_inline(r: Result<Prepared, Failure>, call: ParamsCall, item: Item) -> bool {
    match as_template(item) {
        Err(f) => r matches Err(e) && e@ == f,
        Ok(template) => match params_values(call) {
            Err(f) => r matches Err(e) && e@ == f,
            Ok(values) => match inline_case(template, values) {
                Err(f) => r matches Err(e) && e@ == f,
                Ok(value) => r matches Ok(p) && p.input_fn == template && case_views(p.cases@)
                    == inline_cases(value, call.span) && p.explicit_type is None,
            },
        },
    }
}

/// Reads an inline declaration for a template: the item has to be a
/// function, the values are canonicalized and packed into one case.
pub fn prepare_params(call: &ParamsCall, item: Item) -> (r: Result<Prepared, Failure>)
    ensures
        prepared_inline(r, *call, item),
{
    let input_fn = match parse_item_fn(item) {
        Ok(template) => template,
        Err(f) => {
            return Err(f);
        },
    };
    let args = match TestCaseArgs::parse(call) {
        Ok(args) => args,
        Err(f) => {
            return Err(f);
        },
    };
    let mut values = args.values;
    let ghost content = views(values@);
    let arg_count = input_fn.inputs.len();
    let value = if arg_count > 1 {
        if values.len() != arg_count {
            let mut message = "Test function expects ".to_owned();
            push_decimal(&mut message, arg_count as u64);
            message.append(" arguments, but ");
            push_decimal(&mut message, values.len() as u64);
            message.append(" were provided in #[test_params]");
            return Err(Failure::new(ErrorKind::ArityMismatch, message, input_fn.inputs_span));
        }
        proof {
            lemma_array_view(values);
        }
        CanonicalValue::Array(values)
    } else if arg_count == 1 {
        if values.len() == 1 {
            let only = values.pop().unwrap();
            assert(only@ == content[0]);
            only
        } else {
            proof {
                lemma_array_view(values);
            }
            CanonicalValue::Array(values)
        }
    } else {
        return Err(
            Failure::with_text(
                ErrorKind::UntypedReceiver,
                "Test function must have at least one argument when using #[test_params]",
                input_fn.inputs_span,
            ),
        );
    };
    let mut cases: Vec<ValueWithSpan> = Vec::new();
    cases.push(ValueWithSpan { value, span: call.span, suffix: None });
    assert(case_views(cases@) =~= inline_cases(value@, call.span));
    Ok(Prepared { input_fn, cases, explicit_type: None })
}

/// Expands a template with the values of one inline declaration: one case,
/// whose test calls the implementation with those values.
pub fn test_params(call: &ParamsCall, item: Item, missing: &Vec<String>) -> (r: Result<
    TestSet,
    Failure,
>)
    ensures
        match as_template(item) {
            Err(f) => r matches Err(e) && e@ == f,
            Ok(template) => match params_values(*call) {
                Err(f) => r matches Err(e) && e@ == f,
                Ok(values) => match inline_case(template, values) {
                    Err(f) => r matches Err(e) && e@ == f,
                    Ok(value) => expansion(
                        r,
                        template,
                        inline_cases(value, call.span),
                        template.ident,
                        None,
                        missing@,
                    ),
                },
            },
        },
{
    match prepare_params(call, item) {
        Ok(prepared) => prepared.generate(missing),
        Err(f) => Err(f),
    }
}

} // verus!
