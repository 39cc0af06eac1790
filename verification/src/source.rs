//! Source declarations: which kind of source supplies a template's cases,
//! with what argument and for which target type.

use crate::canonicalize::unsupported;
use crate::error::{ErrorKind, Failure, FailureView, Span};
use crate::template::{Ident, TypeExpr};
use crate::text::{join, same_text};
use vstd::prelude::*;

verus! {

/// A string literal and where it stands.
#[derive(Debug)]
pub struct LitStr {
    pub value: String,
    pub span: Span,
}

impl LitStr {
    /// A copy of the literal.
    pub fn duplicate(&self) -> (r: LitStr)
        ensures
            r == *self,
    {
        LitStr { value: self.value.clone(), span: self.span }
    }
}

/// One generic argument of a path segment.
#[derive(Debug)]
pub enum GenericArg {
    Type(TypeExpr),
    /// A lifetime, a constant, and so on.
    Other,
}

/// What follows the name of a path segment.
#[derive(Debug)]
pub enum PathArguments {
    /// Nothing.
    Plain,
    /// Generic arguments between angle brackets.
    AngleBracketed { args: Vec<GenericArg>, span: Span },
    /// Arguments between round brackets, as in `Fn(A) -> B`.
    Parenthesized,
}

/// One segment of the path that names the kind of source.
#[derive(Debug)]
pub struct PathSegment {
    pub ident: Ident,
    pub arguments: PathArguments,
}

/// One argument between the round brackets of a source declaration.
#[derive(Debug)]
pub enum SourceArg {
    Str(LitStr),
    Type(TypeExpr),
    /// Anything else.
    Other { span: Span },
}

/// A source declaration as written: a path and, between round brackets,
/// its arguments.
#[derive(Debug)]
pub struct SourceCall {
    pub segments: Vec<PathSegment>,
    /// Where the path stands.
    pub span: Span,
    /// The arguments; `None` where no round brackets follow the path.
    pub args: Option<Vec<SourceArg>>,
    /// Where the declaration ends.
    pub end: Span,
}

/// The kinds of source.
#[derive(Clone, Copy, PartialEq, Eq, Debug, Structural)]
pub enum SourceKind {
    JsonFile,
    JsonString,
    JsonResponse,
    PathMask,
}

/// A source of cases: its argument, the explicit target type if one was
/// given, and where the kind was named.
#[derive(Debug)]
pub enum SourceType {
    /// A file of structured text, by its path relative to the project root.
    JsonFile(LitStr, Option<TypeExpr>, Span),
    /// Structured text, embedded.
    JsonString(LitStr, Option<TypeExpr>, Span),
    /// Structured text, fetched from a URL.
    JsonResponse(LitStr, Option<TypeExpr>, Span),
    /// The paths that match a glob pattern relative to the project root.
    PathMask(LitStr, Span),
}

/// Where a source's kind was named.
pub open spec fn source_span(source: SourceType) -> Span {
    match source {
        SourceType::JsonFile(_, _, span) => span,
        SourceType::JsonString(_, _, span) => span,
        SourceType::JsonResponse(_, _, span) => span,
        SourceType::PathMask(_, span) => span,
    }
}

/// The explicit target type of a source.
pub open spec fn source_target(source: SourceType) -> Option<TypeExpr> {
    match source {
        SourceType::JsonFile(_, ty, _) => ty,
        SourceType::JsonString(_, ty, _) => ty,
        SourceType::JsonResponse(_, ty, _) => ty,
        SourceType::PathMask(_, _) => None,
    }
}

/// The type carried by a generic qualifier: that of the first segment
/// with angle brackets, which must hold exactly one argument, a type.
pub open spec fn turbofish(segments: Seq<PathSegment>) -> Result<Option<TypeExpr>, FailureView>
    decreases segments.len(),
{
    if segments.len() == 0 {
        Ok(None)
    } else {
        match segments[0].arguments {
            PathArguments::AngleBracketed { args, span } => if args.len() != 1 {
                Err(unsupported("Expected exactly one type argument in turbofish"@, span))
            } else {
                match args[0] {
                    GenericArg::Type(ty) => Ok(Some(ty)),
                    GenericArg::Other => Err(
                        unsupported("Expected a type argument in turbofish"@, span),
                    ),
                }
            },
            _ => turbofish(segments.drop_first()),
        }
    }
}

/// The kind of source that a name stands for.
pub open spec fn kind_named(name: Seq<char>) -> Option<SourceKind> {
    if name == "JsonFile"@ {
        Some(SourceKind::JsonFile)
    } else if name == "JsonString"@ {
        Some(SourceKind::JsonString)
    } else if name == "JsonResponse"@ {
        Some(SourceKind::JsonResponse)
    } else if name == "PathMask"@ {
        Some(SourceKind::PathMask)
    } else {
        None
    }
}

/// Where an argument stands.
pub open spec fn arg_span(arg: SourceArg) -> Span {
    match arg {
        SourceArg::Str(lit) => lit.span,
        SourceArg::Type(ty) => ty.span,
        SourceArg::Other { span } => span,
    }
}

/// The arguments of a source of the given kind: a string literal and,
/// except for a path mask, an optional type after it.
pub open spec fn call_args(call: SourceCall, kind: SourceKind) -> Result<
    (LitStr, Option<TypeExpr>),
    FailureView,
> {
    match call.args {
        None => Err(unsupported("expected parentheses"@, call.end)),
        Some(args) => if args.len() == 0 {
            Err(unsupported("expected string literal"@, call.end))
        } else {
            match args[0] {
                SourceArg::Str(lit) => if args.len() == 1 {
                    Ok((lit, None))
                } else if kind == SourceKind::PathMask {
                    Err(unsupported("unexpected token"@, arg_span(args[1])))
                } else {
                    match args[1] {
                        SourceArg::Type(ty) => if args.len() == 2 {
                            Ok((lit, Some(ty)))
                        } else {
                            Err(unsupported("unexpected token"@, arg_span(args[2])))
                        },
                        _ => Err(unsupported("expected a type"@, arg_span(args[1]))),
                    }
                },
                _ => Err(unsupported("expected string literal"@, arg_span(args[0]))),
            }
        },
    }
}

/// The source of the given kind. A type among the arguments goes before
/// one carried by a generic qualifier.
pub open spec fn source_of(
    kind: SourceKind,
    text: LitStr,
    arg_type: Option<TypeExpr>,
    generic: Option<TypeExpr>,
    span: Span,
) -> SourceType {
    let target = if arg_type is Some {
        arg_type
    } else {
        generic
    };
    match kind {
        SourceKind::JsonFile => SourceType::JsonFile(text, target, span),
        SourceKind::JsonString => SourceType::JsonString(text, target, span),
        SourceKind::JsonResponse => SourceType::JsonResponse(text, target, span),
        SourceKind::PathMask => SourceType::PathMask(text, span),
    }
}

/// The source that a declaration declares.
pub open spec fn parsed_source(call: SourceCall) -> Result<SourceType, FailureView> {
    match turbofish(call.segments@) {
        Err(f) => Err(f),
        Ok(generic) => if call.segments.len() == 0 {
            Err(unsupported("Expected a variant name"@, call.span))
        } else {
            let last = call.segments@.last();
            match kind_named(last.ident.name@) {
                None => Err(unsupported("Unknown variant: "@ + last.ident.name@, last.ident.span)),
                Some(kind) => match call_args(call, kind) {
                    Err(f) => Err(f),
                    Ok((text, arg_type)) => Ok(source_of(kind, text, arg_type, generic, call.span)),
                },
            }
        },
    }
}

fn syntax_failure(message: &str, span: Span) -> (f: Failure)
    ensures
        f@ == unsupported(message@, span),
{
    Failure::with_text(ErrorKind::UnsupportedExpression, message, span)
}

fn turbofish_of(segments: &Vec<PathSegment>) -> (r: Result<Option<TypeExpr>, Failure>)
    ensures
        match r {
            Ok(ty) => turbofish(segments@) == Ok::<Option<TypeExpr>, FailureView>(ty),
            Err(f) => turbofish(segments@) == Err::<Option<TypeExpr>, FailureView>(f@),
        },
{
    let mut i: usize = 0;
    assert(segments@.skip(0) =~= segments@);
    while i < segments.len()
        invariant
            i <= segments.len(),
            turbofish(segments@) == turbofish(segments@.skip(i as int)),
        decreases segments.len() - i,
    {
        proof {
            assert(segments@.skip(i as int).drop_first() =~= segments@.skip(i + 1));
            assert(segments@.skip(i as int)[0] == segments@[i as int]);
        }
        match &segments[i].arguments {
            PathArguments::AngleBracketed { args, span } => {
                if args.len() != 1 {
                    return Err(
                        syntax_failure("Expected exactly one type argument in turbofish", *span),
                    );
                }
                match &args[0] {
                    GenericArg::Type(ty) => {
                        return Ok(Some(ty.duplicate()));
                    },
                    GenericArg::Other => {
                        return Err(syntax_failure("Expected a type argument in turbofish", *span));
                    },
                }
            },
            _ => {},
        }
        i = i + 1;
    }
    Ok(None)
}

fn kind_of(name: &str) -> (r: Option<SourceKind>)
    ensures
        r == kind_named(name@),
{
    if same_text(name, "JsonFile") {
        Some(SourceKind::JsonFile)
    } else if same_text(name, "JsonString") {
        Some(SourceKind::JsonString)
    } else if same_text(name, "JsonResponse") {
        Some(SourceKind::JsonResponse)
    } else if same_text(name, "PathMask") {
        Some(SourceKind::PathMask)
    } else {
        None
    }
}

fn span_of_arg(arg: &SourceArg) -> (s: Span)
    ensures
        s == arg_span(*arg),
{
    match arg {
        SourceArg::Str(lit) => lit.span,
        SourceArg::Type(ty) => ty.span,
        SourceArg::Other { span } => *span,
    }
}

fn call_args_of(call: &SourceCall, kind: SourceKind) -> (r: Result<
    (LitStr, Option<TypeExpr>),
    Failure,
>)
    ensures
        match r {
            Ok(found) => call_args(*call, kind) == Ok::<(LitStr, Option<TypeExpr>), FailureView>(
                found,
            ),
            Err(f) => call_args(*call, kind) == Err::<(LitStr, Option<TypeExpr>), FailureView>(
                f@,
            ),
        },
{
    match &call.args {
        None => Err(syntax_failure("expected parentheses", call.end)),
        Some(args) => {
            if args.len() == 0 {
                return Err(syntax_failure("expected string literal", call.end));
            }
            match &args[0] {
                SourceArg::Str(lit) => {
                    if args.len() == 1 {
                        Ok((lit.duplicate(), None))
                    } else if kind == SourceKind::PathMask {
                        Err(syntax_failure("unexpected token", span_of_arg(&args[1])))
                    } else {
                        match &args[1] {
                            SourceArg::Type(ty) => {
                                if args.len() == 2 {
                                    Ok((lit.duplicate(), Some(ty.duplicate())))
                                } else {
                                    Err(syntax_failure("unexpected token", span_of_arg(&args[2])))
                                }
                            },
                            _ => Err(syntax_failure("expected a type", span_of_arg(&args[1]))),
                        }
                    }
                },
                _ => Err(syntax_failure("expected string literal", span_of_arg(&args[0]))),
            }
        },
    }
}

impl SourceType {
    /// Where the source's kind was named.
    pub fn span(&self) -> (s: Span)
        ensures
            s == source_span(*self),
    {
        match self {
            SourceType::JsonFile(_, _, span) => *span,
            SourceType::JsonString(_, _, span) => *span,
            SourceType::JsonResponse(_, _, span) => *span,
            SourceType::PathMask(_, span) => *span,
        }
    }

    /// Reads a source declaration: the kind by the last segment of its
    /// path, then the arguments that the kind takes.
    pub fn parse(call: &SourceCall) -> (r: Result<SourceType, Failure>)
        ensures
            match r {
                Ok(source) => parsed_source(*call) == Ok::<SourceType, FailureView>(source),
                Err(f) => parsed_source(*call) == Err::<SourceType, FailureView>(f@),
            },
    {
        let generic = match turbofish_of(&call.segments) {
            Ok(ty) => ty,
            Err(f) => {
                return Err(f);
            },
        };
        if call.segments.len() == 0 {
            return Err(syntax_failure("Expected a variant name", call.span));
        }
        let last = &call.segments[call.segments.len() - 1];
        let kind = match kind_of(last.ident.name.as_str()) {
            Some(kind) => kind,
            None => {
                return Err(
                    Failure::new(
                        ErrorKind::UnsupportedExpression,
                        join("Unknown variant: ".to_owned(), last.ident.name.as_str()),
                        last.ident.span,
                    ),
                );
            },
        };
        let (text, arg_type) = match call_args_of(call, kind) {
            Ok(found) => found,
            Err(f) => {
                return Err(f);
            },
        };
        let target = if arg_type.is_some() {
            arg_type
        } else {
            generic
        };
        Ok(
            match kind {
                SourceKind::JsonFile => SourceType::JsonFile(text, target, call.span),
                SourceKind::JsonString => SourceType::JsonString(text, target, call.span),
                SourceKind::JsonResponse => SourceType::JsonResponse(text, target, call.span),
                SourceKind::PathMask => SourceType::PathMask(text, call.span),
            },
        )
    }
}

} // verus!
