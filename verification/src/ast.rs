use vstd::prelude::*;

verus! {

/// Where a node stands in its source file: column, line, and file name.
/// Positions ride along with the instructions they produced and serve
/// diagnostics only.
#[derive(Debug, Clone, PartialEq)]
pub struct NodePosition {
    pub pos: i32,
    pub line_no: i32,
    pub file: String,
}

/// The parameter list of a function header: names and type annotations,
/// index-aligned.
#[derive(Debug, Clone)]
pub struct Args {
    pub name: Vec<String>,
    pub type_: Vec<String>,
}

/// A foreign-function declaration header.  These nodes belong to a loader
/// outside this core; the compiler passes them over.
#[derive(Debug)]
pub struct External {
    pub name: String,
    pub args: Args,
    pub return_type: String,
}

/// A function definition: header plus the single body expression with its
/// position.
#[derive(Debug)]
pub struct Function {
    pub name: String,
    pub args: Args,
    pub expression: Box<(ExprValue, NodePosition)>,
    pub return_type: String,
}

/// A class definition.  Classes belong to an external object model; the
/// compiler passes them over and they never reach the function table.
#[derive(Debug)]
pub struct Class {
    pub name: String,
    pub fns: Vec<(Function, NodePosition)>,
}

/// A top-level program item as the parser hands it over.
#[derive(Debug)]
pub enum AstNode {
    Extern(External),
    FunctionDef(Function),
    Class(Class),
    Expression(ExprValue),
}

/// A binary operator of the expression language.
#[derive(Debug, Clone, Copy, PartialEq, Eq, Structural)]
pub enum BinOpKind {
    Add,
    Sub,
    Mul,
    Div,
    Less,
    Greater,
    LessEq,
    GreaterEq,
    Equal,
}

/// An expression node.  This is the input contract of the compiler: the
/// node kinds the bytecode core translates.
#[derive(Debug)]
pub enum ExprValue {
    /// A call of the named function on the argument expressions.
    FnCall(String, Vec<ExprValue>),
    /// A binary operation on two subexpressions.
    BinOp(Box<ExprValue>, BinOpKind, Box<ExprValue>),
    /// A boolean literal.
    Boolean(bool),
    /// A numeric literal.
    Integer(i32),
    /// A string literal.
    Str(String),
    /// A read of the named global variable.
    Identifier(String),
    /// A declaration of the named global variable with its default value.
    VarDecl { name: String, type_: String },
    /// A two-armed conditional.
    IfElse { cond: Box<ExprValue>, if_: Box<ExprValue>, else_: Box<ExprValue> },
    /// An assignment of the value expression to the named global variable.
    Assign { name: String, value: Box<ExprValue> },
    /// The absence literal.
    NoneLit,
    /// An array literal, elements in declaration order.
    Array(Vec<ExprValue>),
}

} // verus!
