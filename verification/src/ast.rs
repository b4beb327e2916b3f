//! The parsed project as the analysis reads it: modules, functions and
//! expression trees. All of it is plain data that a front end fills in.

use vstd::prelude::*;
use crate::types::{NameAccessChain, TypeNode};

verus! {

/// A span of a source file, in byte offsets; `end` is exclusive.
#[derive(Debug, Clone, Copy, PartialEq, Eq)]
pub struct Loc {
    pub start: u32,
    pub end: u32,
}

/// Declared visibility of a function.
#[derive(Debug, Clone, Copy, PartialEq, Eq)]
pub enum Visibility {
    Public,
    Friend,
    Package,
    Internal,
}

/// A constraint on a type parameter.
#[derive(Debug, Clone, Copy, PartialEq, Eq)]
pub enum Ability {
    Copy,
    Drop,
    Store,
    Key,
}

/// A type parameter with its constraints in declaration order.
#[derive(Debug, Clone, PartialEq, Eq)]
pub struct TypeParameter {
    pub name: String,
    pub abilities: Vec<Ability>,
}

/// A declared parameter of a function.
#[derive(Debug, PartialEq, Eq)]
pub struct FunctionParameter {
    pub name: String,
    pub type_: TypeNode,
}

/// A field initialiser of a struct construction.
#[derive(Debug, PartialEq, Eq)]
pub struct FieldInit {
    pub name: String,
    pub value: Exp,
}

/// One arm of a `match`.
#[derive(Debug, PartialEq, Eq)]
pub struct MatchArm {
    pub guard: Option<Exp>,
    pub body: Exp,
}

/// A statement of a block.
#[derive(Debug, PartialEq, Eq)]
pub enum SequenceItem {
    /// An expression followed by a semicolon.
    Statement(Exp),
    /// `let` without a value.
    Declare(Vec<String>, Option<TypeNode>),
    /// `let` with a value.
    Bind(Vec<String>, Option<TypeNode>, Exp),
}

/// The statements of a block and its optional final expression.
#[derive(Debug, PartialEq, Eq)]
pub struct Sequence {
    pub items: Vec<SequenceItem>,
    pub tail: Option<Box<Exp>>,
}

/// An expression.
#[derive(Debug, PartialEq, Eq)]
pub enum Exp {
    /// A literal value.
    Value,
    /// `move x`.
    Move(String),
    /// `copy x`.
    Copy(String),
    /// A bare name.
    Name(NameAccessChain),
    /// `f(args)`, `m::f(args)` or `a::m::f(args)`.
    Call(NameAccessChain, Vec<Exp>),
    /// `T { field: value, .. }`.
    Pack(NameAccessChain, Vec<FieldInit>),
    /// `vector[e1, e2]`.
    Vector(Vec<Exp>),
    IfElse(Box<Exp>, Box<Exp>, Option<Box<Exp>>),
    Match(Box<Exp>, Vec<MatchArm>),
    While(Box<Exp>, Box<Exp>),
    Loop(Box<Exp>),
    Labeled(String, Box<Exp>),
    Block(Sequence),
    Lambda(Vec<String>, Box<Exp>),
    /// A quantifier of a specification: ranges, optional condition, body.
    Quant(Vec<Exp>, Option<Box<Exp>>, Box<Exp>),
    ExpList(Vec<Exp>),
    Unit,
    Parens(Box<Exp>),
    Assign(Box<Exp>, Box<Exp>),
    Abort(Option<Box<Exp>>),
    Return(Option<Box<Exp>>),
    Break(Option<Box<Exp>>),
    Continue,
    Dereference(Box<Exp>),
    UnaryExp(Box<Exp>),
    BinopExp(Box<Exp>, Box<Exp>),
    Borrow(bool, Box<Exp>),
    /// `e.field`.
    Dot(Box<Exp>, String),
    /// `e.method(args)`.
    DotCall(Box<Exp>, String, Vec<Exp>),
    Index(Box<Exp>, Vec<Exp>),
    Cast(Box<Exp>, TypeNode),
    Annotate(Box<Exp>, TypeNode),
    /// A specification block; it holds nothing that runs.
    Spec,
    UnresolvedError,
}

/// The body of a function.
#[derive(Debug, PartialEq, Eq)]
pub enum FunctionBody {
    Native,
    Defined(Sequence),
}

/// A function definition.
#[derive(Debug, PartialEq, Eq)]
pub struct Function {
    pub name: String,
    pub visibility: Visibility,
    pub entry: bool,
    pub body: FunctionBody,
    pub type_parameters: Vec<TypeParameter>,
    pub parameters: Vec<FunctionParameter>,
    pub return_type: TypeNode,
    pub loc: Loc,
}

/// A member of a module.
#[derive(Debug, PartialEq, Eq)]
pub enum ModuleMember {
    Function(Function),
    Struct(String),
    Other,
}

/// A module definition.
#[derive(Debug, PartialEq, Eq)]
pub struct ModuleDefinition {
    pub address: Vec<u8>,
    pub name: String,
    pub members: Vec<ModuleMember>,
}

/// What is known of a source file's text.
#[derive(Debug, Clone, PartialEq, Eq)]
pub enum SourceText {
    /// The text of the file.
    Loaded(String),
    /// The file could not be read; the message says why.
    Unreadable(String),
}

/// A parsed source file.
#[derive(Debug, PartialEq, Eq)]
pub struct SourceFile {
    pub path: String,
    pub text: SourceText,
    pub modules: Vec<ModuleDefinition>,
}

/// The parsed modules of a project, in the order in which the files were
/// supplied.
#[derive(Debug, PartialEq, Eq)]
pub struct Project {
    pub files: Vec<SourceFile>,
}

} // verus!
