//! The authored test template and the items around it, as the parser hands
//! them over.

use crate::error::{failure, ErrorKind, Failure, Span};
use crate::text::{join, same_text};
use vstd::prelude::*;

verus! {

/// An identifier and where it stands.
#[derive(Debug)]
pub struct Ident {
    pub name: String,
    pub span: Span,
}

/// What the logic reads of a type's shape.
#[derive(Debug)]
pub enum TypeKind {
    /// A path such as `Vec<u32>`, by the name of its last segment.
    Path { last: Option<String> },
    /// A reference; `target` is the last segment's name where it refers to a path.
    Reference { target: Option<String> },
    /// Any other type: a tuple, an array, and so on.
    Other,
}

/// A type as written: its tokens as text, and its shape.
#[derive(Debug)]
pub struct TypeExpr {
    pub text: String,
    pub kind: TypeKind,
    pub span: Span,
}

/// One parameter of a template.
#[derive(Debug)]
pub enum FnArg {
    /// A parameter with a declared type.
    Typed { ty: TypeExpr },
    /// A receiver such as `self`, which declares no type.
    Receiver { span: Span },
}

/// An attribute, by the names of its path's segments.
#[derive(Debug)]
pub struct Attribute {
    pub path: Vec<String>,
}

/// One statement of a test's body.
#[derive(Debug)]
pub enum Stmt {
    /// A statement of the author's, kept as written.
    Source(String),
    /// Runs the setup hook inside a failure-isolating boundary; where it
    /// fails, the test fails at once with `setup failed: ` and the cause.
    GuardedSetup { hook: String },
    /// Runs the statements inside a boundary of their own, then the
    /// teardown hook, and only then raises what the statements raised.
    GuardedBody { body: Vec<Stmt>, teardown: String },
}

/// A test template: a function whose parameters take the case's value.
#[derive(Debug)]
pub struct TestTemplate {
    pub ident: Ident,
    pub inputs: Vec<FnArg>,
    /// Where the parameter list stands.
    pub inputs_span: Span,
    pub attrs: Vec<Attribute>,
    pub body: Vec<Stmt>,
}

/// A group of tests: a module, inline or not.
#[derive(Debug)]
pub struct GroupDeclaration {
    pub ident: Ident,
    /// The items of an inline module; `None` for a module without a body.
    pub content: Option<Vec<Item>>,
}

/// An item that an attribute is put on.
#[derive(Debug)]
pub enum Item {
    Fn(TestTemplate),
    Mod(GroupDeclaration),
    /// Anything else; `detail` says what the parser expected and found.
    Other { detail: String, span: Span },
}

/// Whether a name is that of a filesystem path type.
pub open spec fn path_name(name: Seq<char>) -> bool {
    name == "Path"@ || name == "PathBuf"@
}

/// Whether a type is a filesystem path, by value or behind a reference.
pub open spec fn path_typed(ty: TypeExpr) -> bool {
    match ty.kind {
        TypeKind::Path { last: Some(name) } => path_name(name@),
        TypeKind::Reference { target: Some(name) } => path_name(name@),
        _ => false,
    }
}

/// Whether a type is a sequence: a path whose last segment is `Vec`.
pub open spec fn sequence_typed(ty: TypeExpr) -> bool {
    ty.kind matches TypeKind::Path { last: Some(name) } && name@ == "Vec"@
}

fn is_path_name(name: &str) -> (r: bool)
    ensures
        r == path_name(name@),
{
    same_text(name, "Path") || same_text(name, "PathBuf")
}

/// Whether a type is a filesystem path, by value or behind a reference.
pub fn is_path_type(ty: &TypeExpr) -> (r: bool)
    ensures
        r == path_typed(*ty),
{
    match &ty.kind {
        TypeKind::Path { last: Some(name) } => is_path_name(name.as_str()),
        TypeKind::Reference { target: Some(name) } => is_path_name(name.as_str()),
        _ => false,
    }
}

/// Whether a type is a sequence.
pub fn is_vec_type(ty: &TypeExpr) -> (r: bool)
    ensures
        r == sequence_typed(*ty),
{
    match &ty.kind {
        TypeKind::Path { last: Some(name) } => same_text(name.as_str(), "Vec"),
        _ => false,
    }
}

impl TypeExpr {
    /// A copy of the type.
    pub fn duplicate(&self) -> (r: TypeExpr)
        ensures
            r == *self,
    {
        let kind = match &self.kind {
            TypeKind::Path { last: Some(name) } => TypeKind::Path { last: Some(name.clone()) },
            TypeKind::Path { last: None } => TypeKind::Path { last: None },
            TypeKind::Reference { target: Some(name) } => TypeKind::Reference {
                target: Some(name.clone()),
            },
            TypeKind::Reference { target: None } => TypeKind::Reference { target: None },
            TypeKind::Other => TypeKind::Other,
        };
        TypeExpr { text: self.text.clone(), kind, span: self.span }
    }
}

/// The message for an item that is no function.
pub open spec fn not_a_function(detail: Seq<char>) -> Seq<char> {
    "Expected a function: "@ + detail
}

/// The template that an item is, or the failure that it is no function.
pub open spec fn as_template(item: Item) -> Result<TestTemplate, crate::error::FailureView> {
    match item {
        Item::Fn(template) => Ok(template),
        Item::Mod(group) => Err(
            failure(
                ErrorKind::InvalidParameterKind,
                not_a_function("expected `fn`"@),
                group.ident.span,
            ),
        ),
        Item::Other { detail, span } => Err(
            failure(ErrorKind::InvalidParameterKind, not_a_function(detail@), span),
        ),
    }
}

/// Takes an item as a test template; anything but a function is refused.
pub fn parse_item_fn(item: Item) -> (r: Result<TestTemplate, Failure>)
    ensures
        match r {
            Ok(template) => as_template(item) == Ok::<TestTemplate, crate::error::FailureView>(
                template,
            ),
            Err(f) => as_template(item) == Err::<TestTemplate, crate::error::FailureView>(f@),
        },
{
    match item {
        Item::Fn(template) => Ok(template),
        Item::Mod(group) => Err(
            Failure::new(
                ErrorKind::InvalidParameterKind,
                join("Expected a function: ".to_owned(), "expected `fn`"),
                group.ident.span,
            ),
        ),
        Item::Other { detail, span } => Err(
            Failure::new(
                ErrorKind::InvalidParameterKind,
                join("Expected a function: ".to_owned(), detail.as_str()),
                span,
            ),
        ),
    }
}

} // verus!
