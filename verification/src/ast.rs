//! The abstract syntax tree of the language.
//!
//! Nodes refer to identifiers by an interned integer id handed out by the
//! lexer.  Blocks (function bodies, loop bodies, branches) are plain node
//! vectors; a function definition shares its parameter list and body through
//! reference counting, so that storing the function in a scope does not copy
//! the tree.

use std::rc::Rc;
use vstd::prelude::*;

use crate::bigint::BigInt;

verus! {

/// A binary (or unary) operator.
#[derive(Debug, Clone, Copy, PartialEq, Eq, Structural)]
pub enum Op {
    Add,
    Sub,
    Mul,
    Div,
    Eq,
    Ne,
    Ge,
    LShift,
    Gt,
    Le,
    RShift,
    Lt,
    Or,
    And,
    Rem,
}

/// A node of the abstract syntax tree.
#[derive(Debug)]
pub enum AstNodes {
    /// Write to a variable, or to a list element when an index is present:
    /// target id, optional index expression, value expression.
    Assign(usize, Option<Box<AstNodes>>, Box<AstNodes>),
    /// A whole program or a brace-delimited block: statements in order.
    CompileUnit(Vec<AstNodes>),
    BinaryOp(Box<AstNodes>, Op, Box<AstNodes>),
    UnaryOp(Op, Box<AstNodes>),
    Number(BigInt),
    /// `var` definition: id and initializer.
    VarDef(usize, Box<AstNodes>),
    /// `const` definition: id and initializer.
    ConstDef(usize, Box<AstNodes>),
    ReadVar(usize),
    /// Function definition: name id, parameter ids, body statements.
    FunctionDef(usize, Rc<Vec<usize>>, Rc<Vec<AstNodes>>),
    /// Call of a built-in or user-defined function: name id and arguments.
    Call(usize, Vec<AstNodes>),
    Return(Box<AstNodes>),
    /// Condition, then-block, else-block.
    If(Box<AstNodes>, Vec<AstNodes>, Vec<AstNodes>),
    /// Loop variable id, start, end, step, body.
    For(usize, Box<AstNodes>, Box<AstNodes>, Box<AstNodes>, Vec<AstNodes>),
    List(Vec<AstNodes>),
    /// A value repeated a number of times: template and count expressions.
    TemplateList(Box<AstNodes>, Box<AstNodes>),
    /// Read of a list element: list id and index expression.
    Index(usize, Box<AstNodes>),
    While(Box<AstNodes>, Vec<AstNodes>),
    Break,
    Continue,
}

/// Every integer literal in the tree is in canonical form.
pub open spec fn ast_wf(n: AstNodes) -> bool
    decreases n,
{
    match n {
        AstNodes::Assign(_, ix, v) => (match ix {
            Some(i) => ast_wf(*i),
            None => true,
        }) && ast_wf(*v),
        AstNodes::CompileUnit(ss) => block_wf(ss@),
        AstNodes::BinaryOp(l, _, r) => ast_wf(*l) && ast_wf(*r),
        AstNodes::UnaryOp(_, v) => ast_wf(*v),
        AstNodes::Number(b) => b.wf(),
        AstNodes::VarDef(_, v) => ast_wf(*v),
        AstNodes::ConstDef(_, v) => ast_wf(*v),
        AstNodes::ReadVar(_) => true,
        AstNodes::FunctionDef(_, _, body) => block_wf(body@),
        AstNodes::Call(_, args) => block_wf(args@),
        AstNodes::Return(v) => ast_wf(*v),
        AstNodes::If(c, t, e) => ast_wf(*c) && block_wf(t@) && block_wf(e@),
        AstNodes::For(_, s, e, st, body) => ast_wf(*s) && ast_wf(*e) && ast_wf(*st) && block_wf(
            body@,
        ),
        AstNodes::List(es) => block_wf(es@),
        AstNodes::TemplateList(t, n) => ast_wf(*t) && ast_wf(*n),
        AstNodes::Index(_, i) => ast_wf(*i),
        AstNodes::While(c, body) => ast_wf(*c) && block_wf(body@),
        AstNodes::Break => true,
        AstNodes::Continue => true,
    }
}

/// [`ast_wf`] for every node of a block.
pub open spec fn block_wf(ss: Seq<AstNodes>) -> bool
    decreases ss,
{
    forall|i: int| 0 <= i < ss.len() ==> ast_wf(#[trigger] ss[i])
}

/// The expression fragment of the tree: everything the grammar can put on
/// the right of `=`, in a condition or in an argument list.  Expressions
/// never define a binding in the scope they are evaluated in; definitions
/// are statements, and a call's definitions live in the call's own scope.
pub open spec fn is_expr(n: AstNodes) -> bool
    decreases n,
{
    match n {
        AstNodes::Number(_) => true,
        AstNodes::ReadVar(_) => true,
        AstNodes::BinaryOp(l, _, r) => is_expr(*l) && is_expr(*r),
        AstNodes::UnaryOp(_, e) => is_expr(*e),
        AstNodes::Call(_, args) => all_exprs(args@),
        AstNodes::List(es) => all_exprs(es@),
        AstNodes::TemplateList(t, n) => is_expr(*t) && is_expr(*n),
        AstNodes::Index(_, i) => is_expr(*i),
        _ => false,
    }
}

/// [`is_expr`] for every node of a list.
pub open spec fn all_exprs(ss: Seq<AstNodes>) -> bool
    decreases ss,
{
    forall|i: int| 0 <= i < ss.len() ==> is_expr(#[trigger] ss[i])
}

} // verus!
