//! The syntax tree of a Lua chunk, as far as member inference reads it.
//!
//! Statements and expressions that the inference does not inspect keep only
//! the blocks and expressions they contain, in source order, so that a walk
//! of the tree still reaches every nested statement.

use vstd::prelude::*;

verus! {

/// A sequence of statements, optionally closed by a last statement.
pub struct Block {
    pub stmts: Vec<Stmt>,
    pub last: Option<LastStmt>,
}

/// A statement that may only close a block.
pub enum LastStmt {
    /// `return e1, e2, ...`
    Return(Vec<Expr>),
    /// `break`, or any other closing statement that returns nothing.
    Break,
}

/// A statement.
pub enum Stmt {
    /// `t1, t2, ... = v1, v2, ...`
    Assignment { targets: Vec<Expr>, values: Vec<Expr> },
    /// `local n1, n2, ... = v1, v2, ...`
    LocalAssignment { names: Vec<String>, values: Vec<Expr> },
    /// `function a.b.c:m(...) body end`
    FunctionDeclaration { name: FunctionName, body: Block },
    /// Any other statement (a call, `do`, `while`, `repeat`, `if`, a `for`
    /// loop, `local function`), by the parts it holds in source order.
    Compound { parts: Vec<Part> },
}

/// A part of a compound statement.
pub enum Part {
    Expr(Expr),
    Block(Block),
}

/// The name of a declared function: `a.b.c` in `names`, `m` of `:m` in `method`.
pub struct FunctionName {
    pub names: Vec<String>,
    pub method: Option<String>,
}

/// An expression.
pub enum Expr {
    /// `function (...) body end`
    Function(Block),
    /// `{ fields }`
    Table(Vec<Field>),
    /// A bare identifier.
    Name(String),
    /// A prefix followed by index and call suffixes: `a.b`, `a["b"]`, `f(x)`, `(e):m()`.
    Suffixed { prefix: Box<Expr>, suffixes: Vec<Suffix> },
    /// A string literal, as written, quotes included.
    Str(String),
    /// A number literal, as written.
    Number(String),
    /// A keyword literal (`true`, `false`, `nil`), as written.
    Symbol(String),
    /// `lhs op rhs` for a binary operator `op`.
    BinOp { lhs: Box<Expr>, rhs: Box<Expr> },
    /// Any other expression (parentheses, a unary operator, `...`), by the
    /// expressions it holds.
    Other(Vec<Expr>),
}

/// A suffix of a suffixed expression.
pub enum Suffix {
    /// `(args)`, `:m(args)`, or a call with a table or string argument.
    Call(Vec<Expr>),
    /// `.name`
    Dot(String),
    /// `[e]`
    Brackets(Expr),
}

/// A field of a table literal.
pub enum Field {
    /// `name = value`
    Named { name: String, value: Expr },
    /// `[key] = value`
    Keyed { key: Expr, value: Expr },
    /// `value`
    Positional(Expr),
}

} // verus!
