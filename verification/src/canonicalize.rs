//! The value canonicalizer: from a declared expression to a canonical value.

use crate::error::{collected, failure, lemma_collected_same, lemma_first_error_at, lemma_first_error_at_most, lemma_first_error_none, same_result, ErrorKind, Failure, FailureView, Span};
use crate::json::{float_literal, literal_float_text};
use crate::syntax::{expr_span, Expr, Lit, LitKind, Member, UnOp};
use crate::text::{flip_sign, lemma_digits_value_prefix, parse_int, parsed_int, same_text, sign_flipped, IntFault};
use crate::value::{field_views, insert_field, lemma_array_view, lemma_insert_field_well_formed, lemma_object_fields_well_formed, lemma_object_view, object_fields, set_field, sorted_keys, values_well_formed, views, CanonicalValue, Number, NumberView, ValueView};
use vstd::prelude::*;

verus! {

/// A canonical value, or the failure to produce one.
pub type Outcome = Result<ValueView, FailureView>;

/// A named field of a struct literal with its value, or the failure to produce it.
pub type FieldOutcome = Result<(Seq<char>, ValueView), FailureView>;

/// The failure that an expression outside the supported grammar gives.
pub open spec fn unsupported(message: Seq<char>, span: Span) -> FailureView {
    failure(ErrorKind::UnsupportedExpression, message, span)
}

/// The message for an integer literal that cannot be read.
pub open spec fn int_fault_message(fault: IntFault) -> Seq<char> {
    match fault {
        IntFault::Empty => "cannot parse integer from empty string"@,
        IntFault::InvalidDigit => "invalid digit found in string"@,
        IntFault::Overflow => "number too large to fit in target type"@,
    }
}

/// What a literal canonicalizes to.
pub open spec fn canon_lit(lit: Lit) -> Outcome {
    match lit.kind {
        LitKind::Str(s) => Ok(ValueView::String(s@)),
        LitKind::Int(digits) => match parsed_int(digits@) {
            Ok(i) => Ok(ValueView::Number(NumberView::Int(i as int))),
            Err(fault) => Err(failure(ErrorKind::InvalidNumber, int_fault_message(fault), lit.span)),
        },
        LitKind::Float(digits) => match literal_float_text(digits@) {
            Some(text) => Ok(ValueView::Number(NumberView::Float(text))),
            None => Err(failure(ErrorKind::InvalidNumber, "Invalid float"@, lit.span)),
        },
        LitKind::Bool(b) => Ok(ValueView::Bool(b)),
        LitKind::Other => Err(unsupported("Unsupported literal type"@, lit.span)),
    }
}

/// What a path canonicalizes to: `None` alone is null, any other path is
/// the name of its last segment.
pub open spec fn canon_path(segments: Seq<String>, span: Span) -> Outcome {
    if segments.len() == 0 {
        Err(unsupported("Invalid path"@, span))
    } else if segments.len() == 1 && segments[0]@ == "None"@ {
        Ok(ValueView::Null)
    } else {
        Ok(ValueView::String(segments.last()@))
    }
}

/// The externally tagged object for a named variant: its single key is the
/// variant's name, its value the sole argument or the array of arguments.
pub open spec fn tagged(name: Seq<char>, args: Seq<ValueView>) -> ValueView {
    ValueView::Object(
        seq![(
            name,
            if args.len() == 1 {
                args[0]
            } else {
                ValueView::Array(args)
            },
        )],
    )
}

/// The name and the number of path segments of what a call calls.
pub open spec fn callee(func: Expr) -> Result<(Seq<char>, nat), FailureView> {
    match func {
        Expr::Path { segments, span } => if segments.len() == 0 {
            Err(unsupported("Invalid variant name"@, span))
        } else {
            Ok((segments@.last()@, segments.len() as nat))
        },
        _ => Err(unsupported("Expected a variant name"@, expr_span(func))),
    }
}

/// The opposite of a canonical number, of the same kind.
pub open spec fn negated(v: ValueView, span: Span) -> Outcome {
    match v {
        ValueView::Number(NumberView::Int(i)) => if i64::MIN < i <= i64::MAX {
            Ok(ValueView::Number(NumberView::Int(-i)))
        } else {
            Err(failure(ErrorKind::InvalidNumber, "Unsupported number for negation"@, span))
        },
        ValueView::Number(NumberView::Float(text)) => Ok(
            ValueView::Number(NumberView::Float(sign_flipped(text))),
        ),
        _ => Err(unsupported("Negation only supported for numbers"@, span)),
    }
}

/// What each argument of a call canonicalizes to.
pub open spec fn arg_outcomes(e: Expr) -> Seq<Outcome>
    decreases e, 0nat,
{
    match e {
        Expr::Call { args, .. } => Seq::new(
            args.len() as nat,
            |i: int|
                if 0 <= i < args.len() {
                    canon(args[i])
                } else {
                    Ok(ValueView::Null)
                },
        ),
        _ => Seq::empty(),
    }
}

/// What each field of a struct literal canonicalizes to; a field without a
/// name fails before its value is looked at.
pub open spec fn field_outcomes(e: Expr) -> Seq<FieldOutcome>
    decreases e, 0nat,
{
    match e {
        Expr::Struct { fields, .. } => Seq::new(
            fields.len() as nat,
            |i: int|
                if 0 <= i < fields.len() {
                    match fields[i].0 {
                        Member::Named(name) => match canon(fields[i].2) {
                            Ok(v) => Ok((name@, v)),
                            Err(f) => Err(f),
                        },
                        Member::Unnamed(_) => Err(unsupported("Expected named field"@, fields[i].1)),
                    }
                } else {
                    Ok((Seq::empty(), ValueView::Null))
                },
        ),
        _ => Seq::empty(),
    }
}

/// What an expression canonicalizes to. Parts are taken from left to
/// right, and the first failure is the failure of the whole.
pub open spec fn canon(e: Expr) -> Outcome
    decreases e, 1nat,
{
    match e {
        Expr::Lit { lit } => canon_lit(lit),
        Expr::Path { segments, span } => canon_path(segments@, span),
        Expr::Call { func, args, span } => match callee(*func) {
            Err(f) => Err(f),
            Ok((name, count)) => match collected(arg_outcomes(e)) {
                Err(f) => Err(f),
                Ok(values) => Ok(
                    if name == "Some"@ && count == 1 && values.len() == 1 {
                        values[0]
                    } else {
                        tagged(name, values)
                    },
                ),
            },
        },
        Expr::Struct { path, fields, span } => match collected(field_outcomes(e)) {
            Err(f) => Err(f),
            Ok(pairs) => Ok(
                if path.len() > 1 {
                    tagged(path@.last()@, seq![ValueView::Object(object_fields(pairs))])
                } else {
                    ValueView::Object(object_fields(pairs))
                },
            ),
        },
        Expr::Unary { op, operand, span } => if op == UnOp::Neg {
            match canon(*operand) {
                Err(f) => Err(f),
                Ok(v) => negated(v, span),
            }
        } else {
            Err(unsupported("Unsupported unary operator"@, span))
        },
        Expr::Other { span } => Err(
            unsupported(
                "Unsupported expression type. Use literals, enum variants or struct initializers."@,
                span,
            ),
        ),
    }
}

/// Whether an exec outcome is the given mathematical one.
pub open spec fn yields(r: Result<CanonicalValue, Failure>, outcome: Outcome) -> bool {
    match r {
        Ok(v) => outcome == Ok::<ValueView, FailureView>(v@),
        Err(f) => outcome == Err::<ValueView, FailureView>(f@),
    }
}

/// Canonicalizes a literal.
pub fn lit_to_value(lit: &Lit) -> (r: Result<CanonicalValue, Failure>)
    ensures
        yields(r, canon_lit(*lit)),
        r matches Ok(v) ==> v@.well_formed(),
{
    match &lit.kind {
        LitKind::Str(s) => Ok(CanonicalValue::String(s.clone())),
        LitKind::Int(digits) => match parse_int(digits.as_str()) {
            Ok(i) => Ok(CanonicalValue::Number(Number::Int(i))),
            Err(fault) => {
                let message = match fault {
                    IntFault::Empty => "cannot parse integer from empty string",
                    IntFault::InvalidDigit => "invalid digit found in string",
                    IntFault::Overflow => "number too large to fit in target type",
                };
                Err(Failure::with_text(ErrorKind::InvalidNumber, message, lit.span))
            },
        },
        LitKind::Float(digits) => match float_literal(digits.as_str()) {
            Some(text) => Ok(CanonicalValue::Number(Number::Float(text))),
            None => Err(Failure::with_text(ErrorKind::InvalidNumber, "Invalid float", lit.span)),
        },
        LitKind::Bool(b) => Ok(CanonicalValue::Bool(*b)),
        LitKind::Other => Err(
            Failure::with_text(ErrorKind::UnsupportedExpression, "Unsupported literal type", lit.span),
        ),
    }
}

/// Builds the externally tagged object for a named variant.
pub fn to_tagged_object(variant_name: String, args: Vec<CanonicalValue>) -> (r: CanonicalValue)
    ensures
        r@ == tagged(variant_name@, views(args@)),
        (forall|i: int| 0 <= i < args.len() ==> (#[trigger] args[i])@.well_formed())
            ==> r@.well_formed(),
{
    let mut args = args;
    let ghost before = args@;
    let value = if args.len() == 1 {
        let only = args.pop().unwrap();
        assert(only == before[0]);
        only
    } else {
        proof {
            lemma_array_view(args);
        }
        CanonicalValue::Array(args)
    };
    let ghost inner = value@;
    let mut fields: Vec<(String, CanonicalValue)> = Vec::new();
    fields.push((variant_name, value));
    proof {
        lemma_object_view(fields);
        assert(field_views(fields@) =~= seq![(variant_name@, inner)]);
        if before.len() == 1 {
            assert(views(before)[0] == before[0]@);
        }
        if forall|i: int| 0 <= i < before.len() ==> (#[trigger] before[i])@.well_formed() {
            assert(inner.well_formed()) by {
                if before.len() == 1 {
                    assert(before[0]@.well_formed());
                } else {
                    assert forall|i: int| 0 <= i < views(before).len() implies (#[trigger] views(
                        before,
                    )[i]).well_formed() by {
                        assert(before[i]@.well_formed());
                    }
                }
            }
        }
    }
    CanonicalValue::Object(fields)
}

/// The opposite of a canonical number.
fn negate(v: CanonicalValue, span: Span) -> (r: Result<CanonicalValue, Failure>)
    ensures
        yields(r, negated(v@, span)),
        r matches Ok(w) ==> w@.well_formed(),
{
    match v {
        CanonicalValue::Number(Number::Int(i)) => {
            if i > i64::MIN {
                Ok(CanonicalValue::Number(Number::Int(-i)))
            } else {
                Err(
                    Failure::with_text(
                        ErrorKind::InvalidNumber,
                        "Unsupported number for negation",
                        span,
                    ),
                )
            }
        },
        CanonicalValue::Number(Number::UInt(u)) => {
            if u <= 0x7fff_ffff_ffff_ffffu64 {
                Ok(CanonicalValue::Number(Number::Int(-(u as i64))))
            } else {
                Err(
                    Failure::with_text(
                        ErrorKind::InvalidNumber,
                        "Unsupported number for negation",
                        span,
                    ),
                )
            }
        },
        CanonicalValue::Number(Number::Float(text)) => Ok(
            CanonicalValue::Number(Number::Float(flip_sign(text.as_str()))),
        ),
        _ => Err(
            Failure::with_text(
                ErrorKind::UnsupportedExpression,
                "Negation only supported for numbers",
                span,
            ),
        ),
    }
}

/// The name and the number of path segments of what a call calls.
fn callee_of(func: &Expr) -> (r: Result<(String, usize), Failure>)
    ensures
        match r {
            Ok(found) => callee(*func) == Ok::<(Seq<char>, nat), FailureView>(
                (found.0@, found.1 as nat),
            ),
            Err(f) => callee(*func) == Err::<(Seq<char>, nat), FailureView>(f@),
        },
{
    match func {
        Expr::Path { segments, span } => {
            if segments.len() == 0 {
                Err(
                    Failure::with_text(ErrorKind::UnsupportedExpression, "Invalid variant name", *span),
                )
            } else {
                Ok((segments[segments.len() - 1].clone(), segments.len()))
            }
        },
        _ => Err(
            Failure::with_text(
                ErrorKind::UnsupportedExpression,
                "Expected a variant name",
                func.span(),
            ),
        ),
    }
}

/// Canonicalizes an expression: a literal, a path, a call, a struct literal
/// or a negation. Anything else fails at its own location.
pub fn expr_to_value(expr: &Expr) -> (r: Result<CanonicalValue, Failure>)
    ensures
        yields(r, canon(*expr)),
        r matches Ok(v) ==> v@.well_formed(),
    decreases expr,
{
    match expr {
        Expr::Lit { lit } => lit_to_value(lit),
        Expr::Path { segments, span } => {
            if segments.len() == 0 {
                Err(Failure::with_text(ErrorKind::UnsupportedExpression, "Invalid path", *span))
            } else if segments.len() == 1 && same_text(segments[0].as_str(), "None") {
                Ok(CanonicalValue::Null)
            } else {
                Ok(CanonicalValue::String(segments[segments.len() - 1].clone()))
            }
        },
        Expr::Call { func, args, span } => {
            let (name, count) = match callee_of(func) {
                Ok(found) => found,
                Err(f) => {
                    return Err(f);
                },
            };
            let ghost outcomes = arg_outcomes(*expr);
            let mut values: Vec<CanonicalValue> = Vec::new();
            let mut i: usize = 0;
            while i < args.len()
                invariant
                    i <= args.len(),
                    expr is Call,
                    *args == expr->Call_args,
                    *func == expr->Call_func,
                    callee(**func) is Ok,
                    outcomes == arg_outcomes(*expr),
                    values.len() == i,
                    forall|j: int|
                        0 <= j < i ==> #[trigger] outcomes[j] == Ok::<ValueView, FailureView>(
                            values[j]@,
                        ),
                    forall|j: int| 0 <= j < i ==> (#[trigger] values[j])@.well_formed(),
                decreases args.len() - i,
            {
                match expr_to_value(&args[i]) {
                    Ok(v) => {
                        values.push(v);
                    },
                    Err(f) => {
                        proof {
                            assert(outcomes[i as int] is Err);
                            lemma_first_error_at(outcomes, i as int);
                        }
                        return Err(f);
                    },
                }
                i = i + 1;
            }
            proof {
                lemma_first_error_none(outcomes);
                assert(collected(outcomes)->Ok_0 =~= views(values@));
            }
            if same_text(name.as_str(), "Some") && count == 1 && values.len() == 1 {
                let only = values.pop().unwrap();
                Ok(only)
            } else {
                Ok(to_tagged_object(name, values))
            }
        },
        Expr::Struct { path, fields, span } => {
            let ghost outcomes = field_outcomes(*expr);
            let mut out: Vec<(String, CanonicalValue)> = Vec::new();
            let mut i: usize = 0;
            proof {
                assert(field_views(out@) =~= object_fields(Seq::empty()));
            }
            while i < fields.len()
                invariant
                    i <= fields.len(),
                    expr is Struct,
                    *fields == expr->Struct_fields,
                    outcomes == field_outcomes(*expr),
                    forall|j: int| 0 <= j < i ==> (#[trigger] outcomes[j]) is Ok,
                    field_views(out@) == object_fields(
                        Seq::new(i as nat, |j: int| outcomes[j]->Ok_0),
                    ),
                    ValueView::Object(field_views(out@)).well_formed(),
                decreases fields.len() - i,
            {
                match &fields[i].0 {
                    Member::Named(name) => match expr_to_value(&fields[i].2) {
                        Ok(v) => {
                            proof {
                                let before = Seq::new(i as nat, |j: int| outcomes[j]->Ok_0);
                                let after = Seq::new((i + 1) as nat, |j: int| outcomes[j]->Ok_0);
                                assert(after.drop_last() =~= before);
                                assert(after.last() == (name@, v@));
                                lemma_insert_field_well_formed(field_views(out@), name@, v@);
                            }
                            set_field(&mut out, name.clone(), v);
                        },
                        Err(f) => {
                            proof {
                                assert(outcomes[i as int] is Err);
                                lemma_first_error_at(outcomes, i as int);
                            }
                            return Err(f);
                        },
                    },
                    Member::Unnamed(_) => {
                        proof {
                            assert(outcomes[i as int] is Err);
                            lemma_first_error_at(outcomes, i as int);
                        }
                        return Err(
                            Failure::with_text(
                                ErrorKind::UnsupportedExpression,
                                "Expected named field",
                                fields[i].1,
                            ),
                        );
                    },
                }
                i = i + 1;
            }
            proof {
                lemma_first_error_none(outcomes);
                assert(collected(outcomes)->Ok_0 =~= Seq::new(
                    fields.len() as nat,
                    |j: int| outcomes[j]->Ok_0,
                ));
                lemma_object_view(out);
            }
            let object = CanonicalValue::Object(out);
            if path.len() > 1 {
                let mut only: Vec<CanonicalValue> = Vec::new();
                only.push(object);
                assert(views(only@) =~= seq![object@]);
                Ok(to_tagged_object(path[path.len() - 1].clone(), only))
            } else {
                Ok(object)
            }
        },
        Expr::Unary { op, operand, span } => {
            match op {
                UnOp::Neg => match expr_to_value(operand) {
                    Ok(v) => negate(v, *span),
                    Err(f) => Err(f),
                },
                _ => Err(
                    Failure::with_text(
                        ErrorKind::UnsupportedExpression,
                        "Unsupported unary operator",
                        *span,
                    ),
                ),
            }
        },
        Expr::Other { span } => Err(
            Failure::with_text(
                ErrorKind::UnsupportedExpression,
                "Unsupported expression type. Use literals, enum variants or struct initializers.",
                *span,
            ),
        ),
    }
}

/// A canonical value with the place it was declared at and, where one was
/// worked out beforehand, its naming suffix.
#[derive(Debug)]
pub struct ValueWithSpan {
    pub value: CanonicalValue,
    pub span: Span,
    pub suffix: Option<String>,
}

/// The mathematical content of a [`ValueWithSpan`].
pub struct CaseView {
    pub value: ValueView,
    pub span: Span,
    pub suffix: Option<Seq<char>>,
}

impl View for ValueWithSpan {
    type V = CaseView;

    open spec fn view(&self) -> CaseView {
        CaseView {
            value: self.value@,
            span: self.span,
            suffix: match self.suffix {
                Some(s) => Some(s@),
                None => None,
            },
        }
    }
}

/// The content of each case of a list.
pub open spec fn case_views(cases: Seq<ValueWithSpan>) -> Seq<CaseView> {
    Seq::new(cases.len(), |i: int| cases[i]@)
}

/// Canonicalizes an expression and keeps its location.
pub fn expr_to_value_with_span(expr: &Expr) -> (r: Result<ValueWithSpan, Failure>)
    ensures
        match r {
            Ok(case) => canon(*expr) == Ok::<ValueView, FailureView>(case.value@)
                && case.value@.well_formed() && case.span == expr_span(*expr)
                && case.suffix is None,
            Err(f) => canon(*expr) == Err::<ValueView, FailureView>(f@),
        },
{
    match expr_to_value(expr) {
        Ok(value) => Ok(ValueWithSpan { value, span: expr.span(), suffix: None }),
        Err(f) => Err(f),
    }
}

/// Whether an expression writes a number: a numeric literal that can be
/// read, the negation of such an expression, or `Some` of one.
pub open spec fn numeric(e: Expr) -> bool
    decreases e,
{
    match e {
        Expr::Lit { lit } => match lit.kind {
            LitKind::Int(digits) => parsed_int(digits@) is Ok,
            LitKind::Float(digits) => literal_float_text(digits@) is Some,
            _ => false,
        },
        Expr::Unary { op, operand, .. } => op == UnOp::Neg && numeric(*operand),
        Expr::Call { func, args, .. } => callee(*func) == Ok::<(Seq<char>, nat), FailureView>(
            ("Some"@, 1),
        ) && args.len() == 1 && numeric(args[0]),
        _ => false,
    }
}

/// Whether an expression lies in the grammar of declared values:
/// literals that can be read, paths, calls of a path with arguments of the
/// grammar, struct literals with named fields of the grammar, and
/// negations of what writes a number.
pub open spec fn supported(e: Expr) -> bool
    decreases e,
{
    match e {
        Expr::Lit { lit } => match lit.kind {
            LitKind::Str(_) => true,
            LitKind::Bool(_) => true,
            LitKind::Int(digits) => parsed_int(digits@) is Ok,
            LitKind::Float(digits) => literal_float_text(digits@) is Some,
            LitKind::Other => false,
        },
        Expr::Path { segments, .. } => segments.len() > 0,
        Expr::Call { func, args, .. } => callee(*func) is Ok && forall|i: int|
            0 <= i < args.len() ==> supported(#[trigger] args[i]),
        Expr::Struct { fields, .. } => forall|i: int|
            0 <= i < fields.len() ==> (#[trigger] fields[i]).0 is Named && supported(fields[i].2),
        Expr::Unary { op, operand, .. } => op == UnOp::Neg && numeric(*operand),
        Expr::Other { .. } => false,
    }
}

/// What writes a number canonicalizes to a number, and an integer among
/// them has an opposite of 64 signed bits.
pub proof fn lemma_numeric_canon(e: Expr)
    requires
        numeric(e),
    ensures
        canon(e) matches Ok(ValueView::Number(n)) && (n matches NumberView::Int(i) ==> -i64::MAX
            <= i <= i64::MAX),
    decreases e,
{
    match e {
        Expr::Lit { lit } => {
            match lit.kind {
                LitKind::Int(digits) => {
                    lemma_digits_value_prefix(digits@, digits@.len() as int);
                    assert(digits@.take(digits@.len() as int) =~= digits@);
                },
                _ => {},
            }
        },
        Expr::Unary { op, operand, span } => {
            lemma_numeric_canon(*operand);
            assert(canon(e) == negated(canon(*operand)->Ok_0, span));
        },
        Expr::Call { func, args, span } => {
            lemma_numeric_canon(args[0]);
            let outcomes = arg_outcomes(e);
            assert(outcomes[0] == canon(args[0]));
            assert forall|j: int| 0 <= j < outcomes.len() implies (#[trigger] outcomes[j]) is Ok by {
            }
            lemma_first_error_none(outcomes);
            assert(collected(outcomes)->Ok_0[0] == canon(args[0])->Ok_0);
        },
        _ => {},
    }
}

/// Canonicalizing is total on the grammar: every expression in it has a value.
pub proof fn lemma_canonicalize_total(e: Expr)
    requires
        supported(e),
    ensures
        canon(e) is Ok,
    decreases e,
{
    match e {
        Expr::Call { func, args, span } => {
            let outcomes = arg_outcomes(e);
            assert forall|j: int| 0 <= j < outcomes.len() implies (#[trigger] outcomes[j]) is Ok by {
                assert(supported(args[j]));
                lemma_canonicalize_total(args[j]);
            }
            lemma_first_error_none(outcomes);
        },
        Expr::Struct { path, fields, span } => {
            let outcomes = field_outcomes(e);
            assert forall|j: int| 0 <= j < outcomes.len() implies (#[trigger] outcomes[j]) is Ok by {
                assert(fields[j].0 is Named && supported(fields[j].2));
                lemma_canonicalize_total(fields[j].2);
            }
            lemma_first_error_none(outcomes);
        },
        Expr::Unary { op, operand, span } => {
            lemma_numeric_canon(*operand);
        },
        _ => {},
    }
}

/// Canonical values are well formed: every object keeps its keys in
/// ascending order, so that equal field maps are equal values.
pub proof fn lemma_canon_well_formed(e: Expr)
    requires
        canon(e) is Ok,
    ensures
        canon(e)->Ok_0.well_formed(),
    decreases e,
{
    match e {
        Expr::Call { func, args, span } => {
            let outcomes = arg_outcomes(e);
            let values = collected(outcomes)->Ok_0;
            assert forall|j: int| 0 <= j < values.len() implies (#[trigger] values[j]).well_formed() by {
                if outcomes[j] is Err {
                    lemma_first_error_at_most(outcomes, j);
                }
                assert(outcomes[j] == canon(args[j]));
                lemma_canon_well_formed(args[j]);
            }
            let name = callee(*func)->Ok_0.0;
            let inner = if values.len() == 1 {
                values[0]
            } else {
                ValueView::Array(values)
            };
            assert(inner.well_formed());
            let only = seq![(name, inner)];
            assert(values_well_formed(only));
            assert(sorted_keys(only));
            assert(tagged(name, values) == ValueView::Object(only));
        },
        Expr::Struct { path, fields, span } => {
            let outcomes = field_outcomes(e);
            let pairs = collected(outcomes)->Ok_0;
            assert forall|j: int| 0 <= j < pairs.len() implies (#[trigger] pairs[j]).1.well_formed() by {
                if outcomes[j] is Err {
                    lemma_first_error_at_most(outcomes, j);
                }
                lemma_canon_well_formed(fields[j].2);
            }
            lemma_object_fields_well_formed(pairs);
            let inner = ValueView::Object(object_fields(pairs));
            let only = seq![(path@.last()@, inner)];
            assert(values_well_formed(only));
            assert(sorted_keys(only));
            assert(tagged(path@.last()@, seq![inner]) == ValueView::Object(only));
        },
        Expr::Unary { op, operand, span } => {
            lemma_canon_well_formed(*operand);
        },
        _ => {},
    }
}

/// Whether two lists of names hold the same names.
pub open spec fn same_names(a: Seq<String>, b: Seq<String>) -> bool {
    a.len() == b.len() && forall|i: int| 0 <= i < a.len() ==> (#[trigger] a[i])@ == b[i]@
}

/// Whether two literals hold the same.
pub open spec fn same_lit(a: LitKind, b: LitKind) -> bool {
    match a {
        LitKind::Str(x) => b matches LitKind::Str(y) && x@ == y@,
        LitKind::Int(x) => b matches LitKind::Int(y) && x@ == y@,
        LitKind::Float(x) => b matches LitKind::Float(y) && x@ == y@,
        LitKind::Bool(x) => b matches LitKind::Bool(y) && x == y,
        LitKind::Other => b is Other,
    }
}

/// Whether two field names are the same.
pub open spec fn same_member(a: Member, b: Member) -> bool {
    match a {
        Member::Named(x) => b matches Member::Named(y) && x@ == y@,
        Member::Unnamed(x) => b matches Member::Unnamed(y) && x == y,
    }
}

/// Whether two expressions are the same token for token, wherever each stands.
pub open spec fn same_tokens(a: Expr, b: Expr) -> bool
    decreases a,
{
    match a {
        Expr::Lit { lit } => b matches Expr::Lit { lit: other } && same_lit(lit.kind, other.kind),
        Expr::Path { segments, .. } => b matches Expr::Path { segments: others, .. } && same_names(
            segments@,
            others@,
        ),
        Expr::Call { func, args, .. } => b matches Expr::Call { func: other, args: others, .. }
            && same_tokens(*func, *other) && args.len() == others.len() && forall|i: int|
            0 <= i < args.len() ==> same_tokens(#[trigger] args[i], others[i]),
        Expr::Struct { path, fields, .. } => b matches Expr::Struct {
            path: other,
            fields: others,
            ..
        } && same_names(path@, other@) && fields.len() == others.len() && forall|i: int|
            0 <= i < fields.len() ==> same_member((#[trigger] fields[i]).0, others[i].0)
                && same_tokens(fields[i].2, others[i].2),
        Expr::Unary { op, operand, .. } => b matches Expr::Unary { op: other, operand: inner, .. }
            && op == other && same_tokens(*operand, *inner),
        Expr::Other { .. } => b is Other,
    }
}

/// What is called has the same name in expressions that are the same
/// token for token.
pub proof fn lemma_callee_ignores_locations(a: Expr, b: Expr)
    requires
        same_tokens(a, b),
    ensures
        same_result(callee(a), callee(b)),
{
    match a {
        Expr::Path { segments, span } => {
            let others = b->Path_segments;
            if segments.len() > 0 {
                assert(segments@.last()@ == others@.last()@) by {
                    assert(segments@[segments.len() - 1]@ == others@[segments.len() - 1]@);
                }
            }
        },
        _ => {},
    }
}

/// The result of canonicalizing depends on the expression alone:
/// expressions that are the same token for token, wherever each stands,
/// give the same value, or failures of the same kind in the same words.
pub proof fn lemma_canon_ignores_locations(a: Expr, b: Expr)
    requires
        same_tokens(a, b),
    ensures
        same_result(canon(a), canon(b)),
    decreases a,
{
    match a {
        Expr::Lit { lit } => {},
        Expr::Path { segments, span } => {
            let others = b->Path_segments;
            if segments.len() > 0 {
                assert(segments@[0]@ == others@[0]@);
                assert(segments@[segments.len() - 1]@ == others@[segments.len() - 1]@);
            }
        },
        Expr::Call { func, args, span } => {
            let other = b->Call_func;
            let others = b->Call_args;
            lemma_callee_ignores_locations(*func, *other);
            let xs = arg_outcomes(a);
            let ys = arg_outcomes(b);
            assert forall|i: int| 0 <= i < xs.len() implies same_result(#[trigger] xs[i], ys[i]) by {
                assert(same_tokens(args[i], others[i]));
                lemma_canon_ignores_locations(args[i], others[i]);
            }
            lemma_collected_same(xs, ys);
        },
        Expr::Struct { path, fields, span } => {
            let other = b->Struct_path;
            let others = b->Struct_fields;
            let xs = field_outcomes(a);
            let ys = field_outcomes(b);
            assert forall|i: int| 0 <= i < xs.len() implies same_result(#[trigger] xs[i], ys[i]) by {
                assert(same_member(fields[i].0, others[i].0) && same_tokens(
                    fields[i].2,
                    others[i].2,
                ));
                lemma_canon_ignores_locations(fields[i].2, others[i].2);
            }
            lemma_collected_same(xs, ys);
            if path.len() > 0 {
                assert(path@[path.len() - 1]@ == other@[path.len() - 1]@);
            }
        },
        Expr::Unary { op, operand, span } => {
            lemma_canon_ignores_locations(*operand, *b->Unary_operand);
        },
        Expr::Other { span } => {},
    }
}

} // verus!
