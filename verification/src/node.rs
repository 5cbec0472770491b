//! The abstract syntax tree the bytecode generator consumes.
//!
//! The core does not parse source text; an external parser produces these
//! nodes and an external generator lowers them to bytecode. The shapes here
//! are the contract between the two: statement lists, function declarations
//! with hoisting metadata, expressions, and literals. Numeric literals
//! carry the engine's number model.

use vstd::prelude::*;

use crate::number::Number;

verus! {

/// A formal parameter of a function node: its name, an optional
/// initializer, and whether it is the rest parameter.
#[derive(Debug)]
pub struct FormalParameter {
    pub name: String,
    pub init: Option<Box<Node>>,
    pub is_rest_param: bool,
}

impl FormalParameter {
    /// A formal parameter node.
    pub fn new(name: String, init: Option<Box<Node>>, is_rest_param: bool) -> (r: FormalParameter)
        ensures
            r == (FormalParameter { name, init, is_rest_param }),
    {
        FormalParameter { name, init, is_rest_param }
    }
}

/// One property of an object literal: a shorthand identifier reference, or
/// a named property with its value expression.
#[derive(Debug)]
pub enum PropertyDefinition {
    IdentifierReference(String),
    Property(String, Node),
}

/// A function declaration with its hoisting metadata: the free-variable
/// set and whether the body mentions the receiver.
#[derive(Debug)]
pub struct FunctionDeclNode {
    pub name: String,
    pub mangled_name: Option<String>,
    pub fv: Vec<String>,
    pub use_this: bool,
    pub params: Vec<FormalParameter>,
    pub body: Box<Node>,
}

/// The node variants the bytecode generator expects.
#[derive(Debug)]
pub enum NodeBase {
    StatementList(Vec<Node>),
    FunctionDecl(FunctionDeclNode),
    FunctionExpr(Option<String>, Vec<FormalParameter>, Box<Node>),
    VarDecl(String, Option<Box<Node>>),
    Member(Box<Node>, String),
    Index(Box<Node>, Box<Node>),
    New(Box<Node>),
    Call(Box<Node>, Vec<Node>),
    If(Box<Node>, Box<Node>, Box<Node>),
    While(Box<Node>, Box<Node>),
    For(Box<Node>, Box<Node>, Box<Node>, Box<Node>),
    Assign(Box<Node>, Box<Node>),
    UnaryOp(Box<Node>, UnaryOp),
    BinaryOp(Box<Node>, Box<Node>, BinOp),
    TernaryOp(Box<Node>, Box<Node>, Box<Node>),
    Return(Option<Box<Node>>),
    Break,
    Continue,
    Array(Vec<Node>),
    Object(Vec<PropertyDefinition>),
    Identifier(String),
    This,
    Arguments,
    Str(String),
    Boolean(bool),
    Number(Number),
    Nope,
}

/// A node: its variant and its position in the source text.
#[derive(Debug)]
pub struct Node {
    pub base: NodeBase,
    pub pos: usize,
}

impl Node {
    /// A node at a source position.
    pub fn new(base: NodeBase, pos: usize) -> (r: Node)
        ensures
            r.pos == pos,
    {
        Node { base, pos }
    }
}

/// The unary operators.
#[derive(Clone, Copy, Debug, PartialEq, Eq, Structural)]
pub enum UnaryOp {
    Delete,
    Void,
    Typeof,
    Plus,
    Minus,
    BitwiseNot,
    Not,
    PrInc,
    PrDec,
    PoInc,
    PoDec,
}

/// The binary operators, assignment and comma included.
#[derive(Clone, Copy, Debug, PartialEq, Eq, Structural)]
pub enum BinOp {
    Add,
    Sub,
    Mul,
    Div,
    Rem,
    Exp,
    And,
    Or,
    Xor,
    LAnd,
    LOr,
    Eq,
    Ne,
    SEq,
    SNe,
    Lt,
    Gt,
    Le,
    Ge,
    Shl,
    Shr,
    ZFShr,
    Comma,
    Assign,
}

} // verus!
