//! Generation-time failures and the source locations they are reported at.

use vstd::prelude::*;

verus! {

/// A source location, as an index into the caller's table of locations.
#[derive(Clone, Copy, PartialEq, Eq, Debug, Structural)]
pub struct Span {
    pub id: u64,
}

impl Span {
    /// The location of the declaration as a whole.
    pub fn call_site() -> (s: Span)
        ensures
            s == (Span { id: 0 }),
    {
        Span { id: 0 }
    }
}

/// What went wrong while a template was expanded.
#[derive(Clone, Copy, PartialEq, Eq, Debug, Structural)]
pub enum ErrorKind {
    UnsupportedExpression,
    InvalidNumber,
    ArityMismatch,
    SourceUnreadable,
    MalformedSource,
    NoMatches,
    UntypedReceiver,
    SerializationFailed,
    DuplicateHook,
    InvalidParameterKind,
}

/// A failure of one template's expansion, reported at a source location.
#[derive(Debug)]
pub struct Failure {
    pub kind: ErrorKind,
    pub message: String,
    pub span: Span,
}

/// The mathematical content of a [`Failure`].
pub struct FailureView {
    pub kind: ErrorKind,
    pub message: Seq<char>,
    pub span: Span,
}

impl View for Failure {
    type V = FailureView;

    open spec fn view(&self) -> FailureView {
        FailureView { kind: self.kind, message: self.message@, span: self.span }
    }
}

/// The failure with the given kind, message and location.
pub open spec fn failure(kind: ErrorKind, message: Seq<char>, span: Span) -> FailureView {
    FailureView { kind, message, span }
}

impl Failure {
    pub fn new(kind: ErrorKind, message: String, span: Span) -> (e: Failure)
        ensures
            e@ == failure(kind, message@, span),
    {
        Failure { kind, message, span }
    }

    /// The failure with a fixed message.
    pub fn with_text(kind: ErrorKind, message: &str, span: Span) -> (e: Failure)
        ensures
            e@ == failure(kind, message@, span),
    {
        Failure { kind, message: message.to_owned(), span }
    }

    /// The message, as shown to the user.
    pub fn to_string(&self) -> (s: String)
        ensures
            s@ == self@.message,
    {
        self.message.clone()
    }
}

} // verus!

verus! {

/// The first failure in a list of outcomes, if any failed.
pub open spec fn first_error<T, E>(results: Seq<Result<T, E>>) -> Option<E>
    decreases results.len(),
{
    if results.len() == 0 {
        None
    } else if results[0] is Err {
        Some(results[0]->Err_0)
    } else {
        first_error(results.drop_first())
    }
}

/// All the successes of a list of outcomes, or its first failure.
pub open spec fn collected<T, E>(results: Seq<Result<T, E>>) -> Result<Seq<T>, E> {
    match first_error(results) {
        Some(e) => Err(e),
        None => Ok(Seq::new(results.len(), |i: int| results[i]->Ok_0)),
    }
}

/// Where everything before position `i` succeeded and `i` failed, that failure is the first.
pub proof fn lemma_first_error_at<T, E>(results: Seq<Result<T, E>>, i: int)
    requires
        0 <= i < results.len(),
        forall|j: int| 0 <= j < i ==> (#[trigger] results[j]) is Ok,
        results[i] is Err,
    ensures
        first_error(results) == Some(results[i]->Err_0),
    decreases i,
{
    if i > 0 {
        let rest = results.drop_first();
        assert(results[0] is Ok);
        assert forall|j: int| 0 <= j < i - 1 implies (#[trigger] rest[j]) is Ok by {
            assert(rest[j] == results[j + 1]);
        }
        assert(rest[i - 1] == results[i]);
        lemma_first_error_at(rest, i - 1);
    }
}

/// Where everything succeeded, there is no first failure.
pub proof fn lemma_first_error_none<T, E>(results: Seq<Result<T, E>>)
    requires
        forall|j: int| 0 <= j < results.len() ==> (#[trigger] results[j]) is Ok,
    ensures
        first_error(results) is None,
    decreases results.len(),
{
    if results.len() > 0 {
        let rest = results.drop_first();
        assert(results[0] is Ok);
        assert forall|j: int| 0 <= j < rest.len() implies (#[trigger] rest[j]) is Ok by {
            assert(rest[j] == results[j + 1]);
        }
        lemma_first_error_none(rest);
    }
}

/// Where some outcome failed, there is a first failure.
pub proof fn lemma_first_error_at_most<T, E>(results: Seq<Result<T, E>>, i: int)
    requires
        0 <= i < results.len(),
        results[i] is Err,
    ensures
        first_error(results) is Some,
    decreases i,
{
    if i > 0 && results[0] is Ok {
        let rest = results.drop_first();
        assert(rest[i - 1] == results[i]);
        lemma_first_error_at_most(rest, i - 1);
    }
}

/// Whether two failures say the same: of the same kind, in the same
/// words, wherever each is reported.
pub open spec fn same_failure(f: FailureView, g: FailureView) -> bool {
    f.kind == g.kind && f.message == g.message
}

/// Whether two outcomes agree: the same value, or failures that say the same.
pub open spec fn same_result<T>(x: Result<T, FailureView>, y: Result<T, FailureView>) -> bool {
    match x {
        Ok(a) => y matches Ok(b) && a == b,
        Err(f) => y matches Err(g) && same_failure(f, g),
    }
}

/// Lists of outcomes that agree one by one have first failures that agree.
pub proof fn lemma_first_error_same<T>(
    xs: Seq<Result<T, FailureView>>,
    ys: Seq<Result<T, FailureView>>,
)
    requires
        xs.len() == ys.len(),
        forall|i: int| 0 <= i < xs.len() ==> same_result(#[trigger] xs[i], ys[i]),
    ensures
        match first_error(xs) {
            Some(f) => first_error(ys) matches Some(g) && same_failure(f, g),
            None => first_error(ys) is None,
        },
    decreases xs.len(),
{
    if xs.len() > 0 {
        assert(same_result(xs[0], ys[0]));
        if xs[0] is Ok {
            let rx = xs.drop_first();
            let ry = ys.drop_first();
            assert forall|i: int| 0 <= i < rx.len() implies same_result(#[trigger] rx[i], ry[i]) by {
                assert(rx[i] == xs[i + 1]);
                assert(ry[i] == ys[i + 1]);
                assert(same_result(xs[i + 1], ys[i + 1]));
            }
            lemma_first_error_same(rx, ry);
        }
    }
}

/// Lists of outcomes that agree one by one collect to outcomes that agree.
pub proof fn lemma_collected_same<T>(
    xs: Seq<Result<T, FailureView>>,
    ys: Seq<Result<T, FailureView>>,
)
    requires
        xs.len() == ys.len(),
        forall|i: int| 0 <= i < xs.len() ==> same_result(#[trigger] xs[i], ys[i]),
    ensures
        same_result(collected(xs), collected(ys)),
{
    lemma_first_error_same(xs, ys);
    if first_error(xs) is None {
        let a = collected(xs)->Ok_0;
        let b = collected(ys)->Ok_0;
        assert forall|i: int| 0 <= i < a.len() implies a[i] == b[i] by {
            if xs[i] is Err {
                lemma_first_error_at_most(xs, i);
            }
            assert(same_result(xs[i], ys[i]));
        }
        assert(a =~= b);
    }
}

} // verus!
