//! The specification-level evaluator.
//!
//! [`s_eval`] gives every construct of the language its meaning as a pure
//! function from an evaluation state to a new state and an outcome.  The
//! executable evaluator is proved to return exactly what `s_eval` says, so
//! these definitions are the single place a reader has to consult for the
//! language's semantics.
//!
//! Evaluation is total: a fuel bound, spent on function calls and loop
//! iterations, stands in for the host call-stack and time limits, and running
//! out of it is the explicit outcome [`Error::OutOfFuel`].

use vstd::prelude::*;

use crate::ast::{AstNodes, Op};
use crate::bigint::{pow2, trunc_div, trunc_rem};
use super::result::{Error, EvalResult, Exit};
use super::scope::{
    s_assign, s_insert, s_list_append, s_list_insert, s_list_item, s_list_len, s_list_modify,
    s_list_remove, s_lookup, s_read, Sym,
};
use super::value::{render_val, val_of, value_wf, Val};

verus! {

/// The immutable surroundings of an evaluation: the interned identifier
/// table and whether a print sink is installed.
pub ghost struct Cfg {
    pub tbl: Seq<Seq<char>>,
    pub printer: bool,
}

/// The mutable evaluation state: the scope chain and the text printed so far.
pub ghost struct EState {
    pub scopes: Seq<Map<usize, Sym>>,
    pub out: Seq<char>,
}

/// The outcome of evaluating one node: a value, a control-flow signal, or a
/// fault.
pub ghost enum Out {
    Val(Val),
    Brk,
    Cont,
    Ret(Val),
    Fault(Error),
}

/// The outcome an executable result stands for.
pub open spec fn res_out(r: EvalResult) -> Out {
    match r {
        Ok(v) => Out::Val(val_of(v)),
        Err(e) => match e {
            Exit::Break => Out::Brk,
            Exit::Continue => Out::Cont,
            Exit::Return(v) => Out::Ret(val_of(v)),
            Exit::Fault(err) => Out::Fault(err),
        },
    }
}

/// Any value carried by an executable result is well-formed.
pub open spec fn res_wf(r: EvalResult) -> bool {
    match r {
        Ok(v) => value_wf(v),
        Err(e) => match e {
            Exit::Return(v) => value_wf(v),
            _ => true,
        },
    }
}

/// The five built-in operations, checked before user-defined functions.
#[derive(Debug, Clone, Copy, PartialEq, Eq, Structural)]
pub enum Builtin {
    Print,
    Append,
    Insert,
    Len,
    Remove,
}

/// Which built-in a name id denotes, if any.  Built-ins shadow user-defined
/// functions of the same name.
pub open spec fn s_builtin(tbl: Seq<Seq<char>>, id: usize) -> Option<Builtin> {
    if id < tbl.len() {
        let n = tbl[id as int];
        if n == "print"@ {
            Some(Builtin::Print)
        } else if n == "append"@ {
            Some(Builtin::Append)
        } else if n == "insert"@ {
            Some(Builtin::Insert)
        } else if n == "len"@ {
            Some(Builtin::Len)
        } else if n == "remove"@ {
            Some(Builtin::Remove)
        } else {
            None
        }
    } else {
        None
    }
}

/// The integer inside a value; anything else is no operand.
pub open spec fn s_as_int(v: Val) -> Result<int, Error> {
    match v {
        Val::Int(i) => Ok(i),
        _ => Err(Error::UseVoidValue),
    }
}

/// An integer as a list index: in `usize` range or out of range.
pub open spec fn s_as_index(i: int) -> Result<int, Error> {
    if 0 <= i <= usize::MAX {
        Ok(i)
    } else {
        Err(Error::IndexOutOfRange)
    }
}

/// An integer as a size (shift amount, repetition count): in `usize` range or
/// out of range.
pub open spec fn s_as_size(i: int) -> Result<int, Error> {
    if 0 <= i <= usize::MAX {
        Ok(i)
    } else {
        Err(Error::ValueOutOfRange)
    }
}

/// The result of a binary operator on two integers.  Comparisons and logical
/// operators yield 0 or 1; an integer is true exactly when it is positive.
pub open spec fn s_apply_op(op: Op, a: int, b: int) -> Result<int, Error> {
    match op {
        Op::Add => Ok(a + b),
        Op::Sub => Ok(a - b),
        Op::Mul => Ok(a * b),
        Op::Div => if b == 0 {
            Err(Error::DivisionByZero)
        } else {
            Ok(trunc_div(a, b))
        },
        Op::Rem => if b == 0 {
            Err(Error::ModuloByZero)
        } else {
            Ok(trunc_rem(a, b))
        },
        Op::Eq => Ok(if a == b { 1int } else { 0int }),
        Op::Ne => Ok(if a != b { 1int } else { 0int }),
        Op::Le => Ok(if a <= b { 1int } else { 0int }),
        Op::Ge => Ok(if a >= b { 1int } else { 0int }),
        Op::Lt => Ok(if a < b { 1int } else { 0int }),
        Op::Gt => Ok(if a > b { 1int } else { 0int }),
        Op::Or => Ok(if a > 0 || b > 0 { 1int } else { 0int }),
        Op::And => Ok(if a > 0 && b > 0 { 1int } else { 0int }),
        Op::LShift => match s_as_size(b) {
            Ok(k) => Ok(a * pow2(k as nat)),
            Err(e) => Err(e),
        },
        Op::RShift => match s_as_size(b) {
            Ok(k) => Ok(a / pow2(k as nat)),
            Err(e) => Err(e),
        },
    }
}

/// The meaning of one node.  The state threads through left to right; the
/// first abrupt outcome (fault or signal) stops the construct.
pub open spec fn s_eval(cfg: Cfg, fuel: nat, st: EState, node: AstNodes) -> (EState, Out)
    decreases fuel, node, 2int,
{
    match node {
        AstNodes::Number(b) => (st, Out::Val(Val::Int(b@))),
        AstNodes::ReadVar(id) => (
            st,
            match s_read(st.scopes, id) {
                Ok(v) => Out::Val(v),
                Err(e) => Out::Fault(e),
            },
        ),
        AstNodes::Break => (st, Out::Brk),
        AstNodes::Continue => (st, Out::Cont),
        AstNodes::Return(e) => {
            let (st1, o) = s_eval(cfg, fuel, st, *e);
            match o {
                Out::Val(v) => (st1, Out::Ret(v)),
                _ => (st1, o),
            }
        },
        AstNodes::UnaryOp(op, e) => {
            let (st1, o) = s_eval(cfg, fuel, st, *e);
            match o {
                Out::Val(v) => match s_as_int(v) {
                    Ok(a) => (st1, Out::Val(Val::Int(if op is Sub { -a } else { a }))),
                    Err(err) => (st1, Out::Fault(err)),
                },
                _ => (st1, o),
            }
        },
        AstNodes::BinaryOp(l, op, r) => {
            let (st1, o1) = s_eval(cfg, fuel, st, *l);
            match o1 {
                Out::Val(v1) => match s_as_int(v1) {
                    Ok(a) => {
                        let (st2, o2) = s_eval(cfg, fuel, st1, *r);
                        match o2 {
                            Out::Val(v2) => match s_as_int(v2) {
                                Ok(b) => match s_apply_op(op, a, b) {
                                    Ok(i) => (st2, Out::Val(Val::Int(i))),
                                    Err(err) => (st2, Out::Fault(err)),
                                },
                                Err(err) => (st2, Out::Fault(err)),
                            },
                            _ => (st2, o2),
                        }
                    },
                    Err(err) => (st1, Out::Fault(err)),
                },
                _ => (st1, o1),
            }
        },
        AstNodes::VarDef(id, e) => {
            let (st1, o) = s_eval(cfg, fuel, st, *e);
            match o {
                Out::Val(v) => (
                    EState { scopes: s_insert(st1.scopes, id, Sym::Var(v)), out: st1.out },
                    Out::Val(Val::Void),
                ),
                _ => (st1, o),
            }
        },
        AstNodes::ConstDef(id, e) => {
            let (st1, o) = s_eval(cfg, fuel, st, *e);
            match o {
                Out::Val(v) => (
                    EState { scopes: s_insert(st1.scopes, id, Sym::Const(v)), out: st1.out },
                    Out::Val(Val::Void),
                ),
                _ => (st1, o),
            }
        },
        AstNodes::FunctionDef(id, params, body) => (
            EState { scopes: s_insert(st.scopes, id, Sym::Func(params@, body@)), out: st.out },
            Out::Val(Val::Void),
        ),
        AstNodes::Assign(id, ix, e) => {
            let (st1, o) = s_eval(cfg, fuel, st, *e);
            match o {
                Out::Val(v) => match ix {
                    Option::None => match s_assign(st1.scopes, id, v) {
                        Ok(sc) => (EState { scopes: sc, out: st1.out }, Out::Val(Val::Void)),
                        Err(err) => (st1, Out::Fault(err)),
                    },
                    Option::Some(ixe) => {
                        let (st2, o2) = s_eval(cfg, fuel, st1, *ixe);
                        match o2 {
                            Out::Val(iv) => match s_as_int(iv) {
                                Ok(i) => match s_as_index(i) {
                                    Ok(i) => match s_list_modify(st2.scopes, id, i, v) {
                                        Ok(sc) => (
                                            EState { scopes: sc, out: st2.out },
                                            Out::Val(Val::Void),
                                        ),
                                        Err(err) => (st2, Out::Fault(err)),
                                    },
                                    Err(err) => (st2, Out::Fault(err)),
                                },
                                Err(err) => (st2, Out::Fault(err)),
                            },
                            _ => (st2, o2),
                        }
                    },
                },
                _ => (st1, o),
            }
        },
        AstNodes::Index(id, ixe) => {
            let (st1, o) = s_eval(cfg, fuel, st, *ixe);
            match o {
                Out::Val(iv) => match s_as_int(iv) {
                    Ok(i) => match s_as_index(i) {
                        Ok(i) => match s_list_item(st1.scopes, id, i) {
                            Ok(v) => (st1, Out::Val(v)),
                            Err(err) => (st1, Out::Fault(err)),
                        },
                        Err(err) => (st1, Out::Fault(err)),
                    },
                    Err(err) => (st1, Out::Fault(err)),
                },
                _ => (st1, o),
            }
        },
        AstNodes::List(elems) => s_list_lit(cfg, fuel, st, elems@, 0, Seq::empty()),
        AstNodes::TemplateList(tmpl, cnt) => {
            let (st1, o1) = s_eval(cfg, fuel, st, *tmpl);
            match o1 {
                Out::Val(tv) => {
                    let (st2, o2) = s_eval(cfg, fuel, st1, *cnt);
                    match o2 {
                        Out::Val(cv) => match s_as_int(cv) {
                            Ok(n) => match s_as_size(n) {
                                Ok(n) => (
                                    st2,
                                    Out::Val(Val::List(Seq::new(n as nat, |i: int| tv))),
                                ),
                                Err(err) => (st2, Out::Fault(err)),
                            },
                            Err(err) => (st2, Out::Fault(err)),
                        },
                        _ => (st2, o2),
                    }
                },
                _ => (st1, o1),
            }
        },
        AstNodes::CompileUnit(stmts) => s_block(cfg, fuel, st, stmts@, 0),
        AstNodes::If(c, t, e) => {
            let (st1, o) = s_eval(cfg, fuel, st, *c);
            match o {
                Out::Val(cv) => match s_as_int(cv) {
                    Ok(i) => {
                        let pushed = EState {
                            scopes: st1.scopes.push(Map::empty()),
                            out: st1.out,
                        };
                        let (st2, o2) = if i > 0 {
                            s_block(cfg, fuel, pushed, t@, 0)
                        } else {
                            s_block(cfg, fuel, pushed, e@, 0)
                        };
                        (EState { scopes: st2.scopes.drop_last(), out: st2.out }, o2)
                    },
                    Err(err) => (st1, Out::Fault(err)),
                },
                _ => (st1, o),
            }
        },
        AstNodes::While(_, _) => {
            let pushed = EState { scopes: st.scopes.push(Map::empty()), out: st.out };
            let (st1, o) = s_while(cfg, fuel, pushed, node);
            (EState { scopes: st1.scopes.drop_last(), out: st1.out }, o)
        },
        AstNodes::For(var, s0, e0, p0, body) => {
            let (st1, o1) = s_eval(cfg, fuel, st, *s0);
            match o1 {
                Out::Val(v1) => match s_as_int(v1) {
                    Ok(start) => {
                        let (st2, o2) = s_eval(cfg, fuel, st1, *e0);
                        match o2 {
                            Out::Val(v2) => match s_as_int(v2) {
                                Ok(end) => {
                                    let (st3, o3) = s_eval(cfg, fuel, st2, *p0);
                                    match o3 {
                                        Out::Val(v3) => match s_as_int(v3) {
                                            Ok(step) => if step <= 0 {
                                                (st3, Out::Fault(Error::ValueOutOfRange))
                                            } else {
                                                let pushed = EState {
                                                    scopes: st3.scopes.push(Map::empty()),
                                                    out: st3.out,
                                                };
                                                let (st4, o4) = s_for(
                                                    cfg,
                                                    fuel,
                                                    pushed,
                                                    node,
                                                    start,
                                                    end,
                                                    step,
                                                );
                                                (
                                                    EState {
                                                        scopes: st4.scopes.drop_last(),
                                                        out: st4.out,
                                                    },
                                                    o4,
                                                )
                                            },
                                            Err(err) => (st3, Out::Fault(err)),
                                        },
                                        _ => (st3, o3),
                                    }
                                },
                                Err(err) => (st2, Out::Fault(err)),
                            },
                            _ => (st2, o2),
                        }
                    },
                    Err(err) => (st1, Out::Fault(err)),
                },
                _ => (st1, o1),
            }
        },
        AstNodes::Call(id, args) => match s_builtin(cfg.tbl, id) {
            Some(b) => s_call_builtin(cfg, fuel, st, b, args@),
            None => match s_lookup(st.scopes, id) {
                Option::None => (st, Out::Fault(Error::SymbolNotFound)),
                Option::Some(sym) => match sym {
                    Sym::Func(params, body) => if fuel == 0 {
                        (st, Out::Fault(Error::OutOfFuel))
                    } else {
                        let pushed = EState {
                            scopes: st.scopes.push(Map::empty()),
                            out: st.out,
                        };
                        let (st1, o1) = s_args(cfg, fuel, pushed, params, args@, 0);
                        match o1 {
                            Out::Val(_) => {
                                let (st2, o2) = s_block(cfg, (fuel - 1) as nat, st1, body, 0);
                                let popped = EState {
                                    scopes: st2.scopes.drop_last(),
                                    out: st2.out,
                                };
                                match o2 {
                                    Out::Val(_) => (popped, Out::Val(Val::Void)),
                                    Out::Ret(v) => (popped, Out::Val(v)),
                                    _ => (popped, o2),
                                }
                            },
                            _ => (
                                EState { scopes: st1.scopes.drop_last(), out: st1.out },
                                o1,
                            ),
                        }
                    },
                    _ => (st, Out::Fault(Error::SymbolNotFound)),
                },
            },
        },
    }
}

/// The arguments of a user-defined call, evaluated left to right in the
/// call's fresh scope and bound as constants to the parameter ids, pairwise;
/// arguments beyond the parameter list are not evaluated, parameters beyond
/// the argument list stay unbound.
pub open spec fn s_args(
    cfg: Cfg,
    fuel: nat,
    st: EState,
    params: Seq<usize>,
    args: Seq<AstNodes>,
    i: int,
) -> (EState, Out)
    decreases fuel, args, args.len() - i,
{
    if i < 0 || i >= args.len() || i >= params.len() {
        (st, Out::Val(Val::Void))
    } else {
        let (st1, o) = s_eval(cfg, fuel, st, args[i]);
        match o {
            Out::Val(v) => s_args(
                cfg,
                fuel,
                EState {
                    scopes: s_insert(st1.scopes, params[i], Sym::Const(v)),
                    out: st1.out,
                },
                params,
                args,
                i + 1,
            ),
            _ => (st1, o),
        }
    }
}

/// Elements of a list literal, evaluated in order.
pub open spec fn s_list_lit(
    cfg: Cfg,
    fuel: nat,
    st: EState,
    elems: Seq<AstNodes>,
    i: int,
    acc: Seq<Val>,
) -> (EState, Out)
    decreases fuel, elems, elems.len() - i,
{
    if i < 0 || i >= elems.len() {
        (st, Out::Val(Val::List(acc)))
    } else {
        let (st1, o) = s_eval(cfg, fuel, st, elems[i]);
        match o {
            Out::Val(v) => s_list_lit(cfg, fuel, st1, elems, i + 1, acc.push(v)),
            _ => (st1, o),
        }
    }
}

/// Statements of a block, in order; the block's own value is void.
pub open spec fn s_block(cfg: Cfg, fuel: nat, st: EState, stmts: Seq<AstNodes>, i: int) -> (
    EState,
    Out,
)
    decreases fuel, stmts, stmts.len() - i,
{
    if i < 0 || i >= stmts.len() {
        (st, Out::Val(Val::Void))
    } else {
        let (st1, o) = s_eval(cfg, fuel, st, stmts[i]);
        match o {
            Out::Val(_) => s_block(cfg, fuel, st1, stmts, i + 1),
            _ => (st1, o),
        }
    }
}

/// One `while` loop, its child scope already pushed.  Each iteration clears
/// the child scope, re-evaluates the condition and runs the body; `break`
/// ends the loop with void, `continue` ends only the body.  Every iteration
/// costs one unit of fuel.
pub open spec fn s_while(cfg: Cfg, fuel: nat, st: EState, node: AstNodes) -> (EState, Out)
    decreases fuel, node, 1int,
{
    if !(node matches AstNodes::While(_, _)) {
        (st, Out::Fault(Error::UnknownOperator))
    } else if fuel == 0 {
        (st, Out::Fault(Error::OutOfFuel))
    } else {
        let cond = node->While_0;
        let body = node->While_1;
        let cleared = EState {
            scopes: st.scopes.update(st.scopes.len() - 1, Map::empty()),
            out: st.out,
        };
        let (st1, o) = s_eval(cfg, fuel, cleared, *cond);
        match o {
            Out::Val(cv) => match s_as_int(cv) {
                Ok(i) => if i <= 0 {
                    (st1, Out::Val(Val::Void))
                } else {
                    let (st2, o2) = s_block(cfg, fuel, st1, body@, 0);
                    match o2 {
                        Out::Val(_) => s_while(cfg, (fuel - 1) as nat, st2, node),
                        Out::Cont => s_while(cfg, (fuel - 1) as nat, st2, node),
                        Out::Brk => (st2, Out::Val(Val::Void)),
                        _ => (st2, o2),
                    }
                },
                Err(err) => (st1, Out::Fault(err)),
            },
            _ => (st1, o),
        }
    }
}

/// One `for` loop, its child scope already pushed and its bounds and step
/// already evaluated.  Each iteration clears the child scope and rebinds the
/// loop variable as a constant; iteration continues while the counter is
/// below `end`.  Every iteration costs one unit of fuel.
pub open spec fn s_for(
    cfg: Cfg,
    fuel: nat,
    st: EState,
    node: AstNodes,
    cur: int,
    end: int,
    step: int,
) -> (EState, Out)
    decreases fuel, node, 1int,
{
    if !(node matches AstNodes::For(_, _, _, _, _)) {
        (st, Out::Fault(Error::UnknownOperator))
    } else if fuel == 0 {
        (st, Out::Fault(Error::OutOfFuel))
    } else if !(cur < end) {
        (st, Out::Val(Val::Void))
    } else {
        let var = node->For_0;
        let body = node->For_4;
        let cleared = st.scopes.update(st.scopes.len() - 1, Map::empty());
        let bound = EState {
            scopes: s_insert(cleared, var, Sym::Const(Val::Int(cur))),
            out: st.out,
        };
        let (st1, o) = s_block(cfg, fuel, bound, body@, 0);
        match o {
            Out::Val(_) => s_for(cfg, (fuel - 1) as nat, st1, node, cur + step, end, step),
            Out::Cont => s_for(cfg, (fuel - 1) as nat, st1, node, cur + step, end, step),
            Out::Brk => (st1, Out::Val(Val::Void)),
            _ => (st1, o),
        }
    }
}

/// A built-in call.  `print` needs an installed sink; the list built-ins need
/// their first argument to be a bare variable name and the exact number of
/// arguments, else [`Error::ArgMismatch`].
pub open spec fn s_call_builtin(
    cfg: Cfg,
    fuel: nat,
    st: EState,
    b: Builtin,
    args: Seq<AstNodes>,
) -> (EState, Out)
    decreases fuel, args, args.len() + 1,
{
    match b {
        Builtin::Print => if !cfg.printer {
            (st, Out::Fault(Error::NoPrinter))
        } else {
            s_print_args(cfg, fuel, st, args, 0)
        },
        Builtin::Append => if args.len() == 2 && args[0] matches AstNodes::ReadVar(_) {
            let lid = args[0]->ReadVar_0;
            let (st1, o) = s_eval(cfg, fuel, st, args[1]);
            match o {
                Out::Val(v) => match s_list_append(st1.scopes, lid, v) {
                    Ok(sc) => (EState { scopes: sc, out: st1.out }, Out::Val(Val::Void)),
                    Err(err) => (st1, Out::Fault(err)),
                },
                _ => (st1, o),
            }
        } else {
            (st, Out::Fault(Error::ArgMismatch))
        },
        Builtin::Insert => if args.len() == 3 && args[0] matches AstNodes::ReadVar(_) {
            let lid = args[0]->ReadVar_0;
            let (st1, o1) = s_eval(cfg, fuel, st, args[1]);
            match o1 {
                Out::Val(iv) => match s_as_int(iv) {
                    Ok(i) => match s_as_index(i) {
                        Ok(i) => {
                            let (st2, o2) = s_eval(cfg, fuel, st1, args[2]);
                            match o2 {
                                Out::Val(v) => match s_list_insert(st2.scopes, lid, i, v) {
                                    Ok(sc) => (
                                        EState { scopes: sc, out: st2.out },
                                        Out::Val(Val::Void),
                                    ),
                                    Err(err) => (st2, Out::Fault(err)),
                                },
                                _ => (st2, o2),
                            }
                        },
                        Err(err) => (st1, Out::Fault(err)),
                    },
                    Err(err) => (st1, Out::Fault(err)),
                },
                _ => (st1, o1),
            }
        } else {
            (st, Out::Fault(Error::ArgMismatch))
        },
        Builtin::Len => if args.len() == 1 && args[0] matches AstNodes::ReadVar(_) {
            let lid = args[0]->ReadVar_0;
            match s_list_len(st.scopes, lid) {
                Ok(n) => (st, Out::Val(Val::Int(n))),
                Err(err) => (st, Out::Fault(err)),
            }
        } else {
            (st, Out::Fault(Error::ArgMismatch))
        },
        Builtin::Remove => if args.len() == 2 && args[0] matches AstNodes::ReadVar(_) {
            let lid = args[0]->ReadVar_0;
            let (st1, o1) = s_eval(cfg, fuel, st, args[1]);
            match o1 {
                Out::Val(iv) => match s_as_int(iv) {
                    Ok(i) => match s_as_index(i) {
                        Ok(i) => match s_list_remove(st1.scopes, lid, i) {
                            Ok(scv) => (
                                EState { scopes: scv.0, out: st1.out },
                                Out::Val(scv.1),
                            ),
                            Err(err) => (st1, Out::Fault(err)),
                        },
                        Err(err) => (st1, Out::Fault(err)),
                    },
                    Err(err) => (st1, Out::Fault(err)),
                },
                _ => (st1, o1),
            }
        } else {
            (st, Out::Fault(Error::ArgMismatch))
        },
    }
}

/// The arguments of `print`, evaluated and written out in order, separated by
/// single spaces and closed with a newline.
pub open spec fn s_print_args(cfg: Cfg, fuel: nat, st: EState, args: Seq<AstNodes>, i: int) -> (
    EState,
    Out,
)
    decreases fuel, args, args.len() - i,
{
    if i < 0 || i >= args.len() {
        (EState { scopes: st.scopes, out: st.out.push('\n') }, Out::Val(Val::Void))
    } else {
        let (st1, o) = s_eval(cfg, fuel, st, args[i]);
        match o {
            Out::Val(v) => {
                let sep: Seq<char> = if i == 0 {
                    Seq::empty()
                } else {
                    seq![' ']
                };
                let st2 = EState {
                    scopes: st1.scopes,
                    out: st1.out.add(sep).add(render_val(v)),
                };
                s_print_args(cfg, fuel, st2, args, i + 1)
            },
            _ => (st1, o),
        }
    }
}

} // verus!
