//! Laws of the language, stated and proved once over the
//! specification-level semantics that every executable function is already
//! proved to follow.

use vstd::prelude::*;

use crate::ast::{all_exprs, is_expr, AstNodes, Op};
use crate::bigint::BigInt;
use super::result::Error;
use super::scope::{
    lemma_s_owner, lemma_s_owner_same_doms, s_assign, s_insert, s_list_item, s_list_items,
    s_lookup, s_owner, s_read, s_with_items, Sym,
};
use super::sem::{
    s_args, s_block, s_builtin, s_call_builtin, s_eval, s_for, s_list_lit, s_print_args, s_while,
    Builtin, Cfg, EState, Out,
};
use super::value::{render_val, Val};

verus! {

/// Scoping law: a binding defined in a freshly opened scope is unreachable
/// once that scope is discarded — the chain is exactly what it was before
/// the scope opened, so resolution finds exactly what it found before; in
/// particular, an id unbound before the construct reads as
/// [`Error::SymbolNotFound`] after it.  This is the discipline the evaluator
/// follows for `if`, `for`, `while` and function-call scopes: open, fill,
/// drop.
pub proof fn lemma_scoped_binding_unreachable(scopes: Seq<Map<usize, Sym>>, id: usize, sym: Sym)
    requires
        scopes.len() > 0,
    ensures
        ({
            let opened = scopes.push(Map::empty());
            let closed = s_insert(opened, id, sym).drop_last();
            &&& closed == scopes
            &&& s_lookup(closed, id) == s_lookup(scopes, id)
            &&& (s_lookup(scopes, id) is None ==> s_read(closed, id) == Err::<Val, Error>(
                Error::SymbolNotFound,
            ))
        }),
{
    let opened = scopes.push(Map::empty());
    let defined = s_insert(opened, id, sym);
    assert(defined.drop_last() =~= scopes);
}

/// Const immutability law: writing to an id bound as a constant is refused
/// with [`Error::BadAssign`], and no scope changes — the write returns no
/// new chain at all, so the evaluator carries the old one forward unchanged.
pub proof fn lemma_const_assign_refused(scopes: Seq<Map<usize, Sym>>, id: usize, v: Val)
    requires
        s_lookup(scopes, id) matches Some(Sym::Const(_)),
    ensures
        s_assign(scopes, id, v) == Err::<Seq<Map<usize, Sym>>, Error>(Error::BadAssign),
{
}

/// Exact arithmetic law: adding, subtracting or multiplying two integer
/// literals yields exactly the mathematical result, whatever its size — no
/// wrapping, no overflow, at any budget and in any state.
pub proof fn lemma_arithmetic_exact(
    cfg: Cfg,
    fuel: nat,
    st: EState,
    node: AstNodes,
    a: BigInt,
    b: BigInt,
    op: Op,
)
    requires
        node matches AstNodes::BinaryOp(l, o, r) && *l == AstNodes::Number(a) && *r
            == AstNodes::Number(b) && o == op,
        op == Op::Add || op == Op::Sub || op == Op::Mul,
    ensures
        s_eval(cfg, fuel, st, node) == (
            st,
            Out::Val(
                Val::Int(
                    if op == Op::Add {
                        a@ + b@
                    } else if op == Op::Sub {
                        a@ - b@
                    } else {
                        a@ * b@
                    },
                ),
            ),
        ),
{
    let l = node->BinaryOp_0;
    let r = node->BinaryOp_2;
    assert(s_eval(cfg, fuel, st, *l) == (st, Out::Val(Val::Int(a@))));
    assert(s_eval(cfg, fuel, st, *r) == (st, Out::Val(Val::Int(b@))));
}

/// Division-safety law: dividing or taking the remainder by an integer
/// literal holding zero is the distinct fault
/// [`Error::DivisionByZero`] or [`Error::ModuloByZero`] — never a crash —
/// and the state is untouched.
pub proof fn lemma_zero_divisor_faults(
    cfg: Cfg,
    fuel: nat,
    st: EState,
    node: AstNodes,
    a: BigInt,
    z: BigInt,
    op: Op,
)
    requires
        node matches AstNodes::BinaryOp(l, o, r) && *l == AstNodes::Number(a) && *r
            == AstNodes::Number(z) && o == op,
        z@ == 0,
        op == Op::Div || op == Op::Rem,
    ensures
        s_eval(cfg, fuel, st, node) == (
            st,
            Out::Fault(
                if op == Op::Div {
                    Error::DivisionByZero
                } else {
                    Error::ModuloByZero
                },
            ),
        ),
{
    let l = node->BinaryOp_0;
    let r = node->BinaryOp_2;
    assert(s_eval(cfg, fuel, st, *l) == (st, Out::Val(Val::Int(a@))));
    assert(s_eval(cfg, fuel, st, *r) == (st, Out::Val(Val::Int(z@))));
}

/// Index-safety law: reading a position outside a bound list is the
/// distinct fault [`Error::IndexOutOfRange`], never a crash.
pub proof fn lemma_index_out_of_range(scopes: Seq<Map<usize, Sym>>, id: usize, ix: int)
    requires
        match s_list_items(scopes, id) {
            Ok(items) => !(0 <= ix < items.len()),
            Err(_) => false,
        },
    ensures
        s_list_item(scopes, id, ix) == Err::<Val, Error>(Error::IndexOutOfRange),
{
}

/// The two chains are equally deep and bind the same ids in every scope but
/// the innermost.
pub open spec fn doms_outer(a: Seq<Map<usize, Sym>>, b: Seq<Map<usize, Sym>>) -> bool {
    &&& b.len() == a.len()
    &&& forall|i: int| 0 <= i < a.len() - 1 ==> (#[trigger] b[i]).dom() == a[i].dom()
}

/// The two chains are equally deep and bind the same ids everywhere.
pub open spec fn doms_all(a: Seq<Map<usize, Sym>>, b: Seq<Map<usize, Sym>>) -> bool {
    &&& b.len() == a.len()
    &&& forall|i: int| 0 <= i < a.len() ==> (#[trigger] b[i]).dom() == a[i].dom()
}

proof fn lemma_doms_outer_trans(
    a: Seq<Map<usize, Sym>>,
    b: Seq<Map<usize, Sym>>,
    c: Seq<Map<usize, Sym>>,
)
    requires
        doms_outer(a, b),
        doms_outer(b, c),
    ensures
        doms_outer(a, c),
{
}

proof fn lemma_doms_all_trans(
    a: Seq<Map<usize, Sym>>,
    b: Seq<Map<usize, Sym>>,
    c: Seq<Map<usize, Sym>>,
)
    requires
        doms_all(a, b),
        doms_all(b, c),
    ensures
        doms_all(a, c),
{
}

/// Work confined to a freshly pushed scope: once it is dropped again, every
/// original domain is back.
proof fn lemma_push_work_pop(base: Seq<Map<usize, Sym>>, after: Seq<Map<usize, Sym>>)
    requires
        doms_outer(base.push(Map::empty()), after),
    ensures
        doms_all(base, after.drop_last()),
{
    assert forall|i: int| 0 <= i < base.len() implies (#[trigger] after.drop_last()[i]).dom()
        == base[i].dom() by {
        assert(after[i].dom() == base.push(Map::empty())[i].dom());
        assert(base.push(Map::empty())[i] == base[i]);
        assert(after.drop_last()[i] == after[i]);
    }
}

/// A successful write to a variable changes no scope's domain: the id is
/// already bound in its owning scope.
proof fn lemma_assign_doms(scopes: Seq<Map<usize, Sym>>, id: usize, v: Val)
    ensures
        match s_assign(scopes, id, v) {
            Ok(sc) => doms_all(scopes, sc),
            Err(_) => true,
        },
{
    lemma_s_owner(scopes, id);
    if s_assign(scopes, id, v) is Ok {
        let o = s_owner(scopes, id);
        let sc = scopes.update(o, scopes[o].insert(id, Sym::Var(v)));
        assert(scopes[o].insert(id, Sym::Var(v)).dom() =~= scopes[o].dom());
        assert forall|i: int| 0 <= i < scopes.len() implies (#[trigger] sc[i]).dom()
            == scopes[i].dom() by {
            if i != o {
                assert(sc[i] == scopes[i]);
            }
        }
    }
}

/// Replacing a bound list's payload changes no scope's domain.
proof fn lemma_with_items_doms(scopes: Seq<Map<usize, Sym>>, id: usize, items: Seq<Val>)
    requires
        s_list_items(scopes, id) is Ok,
    ensures
        doms_all(scopes, s_with_items(scopes, id, items)),
{
    lemma_s_owner(scopes, id);
    let o = s_owner(scopes, id);
    let sym = if scopes[o][id] is Const {
        Sym::Const(Val::List(items))
    } else {
        Sym::Var(Val::List(items))
    };
    let sc = scopes.update(o, scopes[o].insert(id, sym));
    assert(scopes[o].insert(id, sym).dom() =~= scopes[o].dom());
    assert forall|i: int| 0 <= i < scopes.len() implies (#[trigger] sc[i]).dom()
        == scopes[i].dom() by {
        if i != o {
            assert(sc[i] == scopes[i]);
        }
    }
}

/// Evaluation discipline: a node changes binding domains only in the scope
/// it runs in, and an expression changes none at all.
pub proof fn lemma_eval_doms(cfg: Cfg, fuel: nat, st: EState, node: AstNodes)
    requires
        st.scopes.len() > 0,
    ensures
        ({
            let (st1, o) = s_eval(cfg, fuel, st, node);
            &&& doms_outer(st.scopes, st1.scopes)
            &&& (is_expr(node) ==> doms_all(st.scopes, st1.scopes))
        }),
    decreases fuel, node, 2int,
{
    match node {
        AstNodes::Number(_) => {},
        AstNodes::ReadVar(_) => {},
        AstNodes::Break => {},
        AstNodes::Continue => {},
        AstNodes::Return(e) => {
            lemma_eval_doms(cfg, fuel, st, *e);
        },
        AstNodes::UnaryOp(_, e) => {
            lemma_eval_doms(cfg, fuel, st, *e);
        },
        AstNodes::BinaryOp(l, _, r) => {
            lemma_eval_doms(cfg, fuel, st, *l);
            let (sta, oa) = s_eval(cfg, fuel, st, *l);
            lemma_eval_doms(cfg, fuel, sta, *r);
            let (stb, ob) = s_eval(cfg, fuel, sta, *r);
            lemma_doms_outer_trans(st.scopes, sta.scopes, stb.scopes);
            if is_expr(node) {
                lemma_doms_all_trans(st.scopes, sta.scopes, stb.scopes);
            }
        },
        AstNodes::VarDef(id, e) => {
            lemma_eval_doms(cfg, fuel, st, *e);
            let (sta, oa) = s_eval(cfg, fuel, st, *e);
            let sc = s_insert(sta.scopes, id, Sym::Var(oa->Val_0));
            assert(doms_outer(sta.scopes, sc));
            lemma_doms_outer_trans(st.scopes, sta.scopes, sc);
        },
        AstNodes::ConstDef(id, e) => {
            lemma_eval_doms(cfg, fuel, st, *e);
            let (sta, oa) = s_eval(cfg, fuel, st, *e);
            let sc = s_insert(sta.scopes, id, Sym::Const(oa->Val_0));
            assert(doms_outer(sta.scopes, sc));
            lemma_doms_outer_trans(st.scopes, sta.scopes, sc);
        },
        AstNodes::FunctionDef(id, params, body) => {
            assert(doms_outer(st.scopes, s_insert(st.scopes, id, Sym::Func(params@, body@))));
        },
        AstNodes::Assign(id, ix, e) => {
            lemma_eval_doms(cfg, fuel, st, *e);
            let (sta, oa) = s_eval(cfg, fuel, st, *e);
            match oa {
                Out::Val(v) => match ix {
                    Option::None => {
                        lemma_assign_doms(sta.scopes, id, v);
                        if s_assign(sta.scopes, id, v) is Ok {
                            lemma_doms_outer_trans(
                                st.scopes,
                                sta.scopes,
                                s_assign(sta.scopes, id, v)->Ok_0,
                            );
                        }
                    },
                    Option::Some(ixe) => {
                        lemma_eval_doms(cfg, fuel, sta, *ixe);
                        let (stb, ob) = s_eval(cfg, fuel, sta, *ixe);
                        lemma_doms_outer_trans(st.scopes, sta.scopes, stb.scopes);
                        match ob {
                            Out::Val(iv) => {
                                if s_list_items(stb.scopes, id) is Ok {
                                    lemma_with_items_doms(
                                        stb.scopes,
                                        id,
                                        s_list_items(stb.scopes, id)->Ok_0.update(0, v),
                                    );
                                    assert forall|items: Seq<Val>|
                                        s_list_items(stb.scopes, id) is Ok implies doms_all(
                                        stb.scopes,
                                        #[trigger] s_with_items(stb.scopes, id, items),
                                    ) by {
                                        lemma_with_items_doms(stb.scopes, id, items);
                                    }
                                }
                            },
                            _ => {},
                        }
                    },
                },
                _ => {},
            }
        },
        AstNodes::Index(_, ixe) => {
            lemma_eval_doms(cfg, fuel, st, *ixe);
        },
        AstNodes::List(es) => {
            lemma_list_doms(cfg, fuel, st, es@, 0, Seq::empty());
        },
        AstNodes::TemplateList(t, n) => {
            lemma_eval_doms(cfg, fuel, st, *t);
            let (sta, oa) = s_eval(cfg, fuel, st, *t);
            lemma_eval_doms(cfg, fuel, sta, *n);
            let (stb, ob) = s_eval(cfg, fuel, sta, *n);
            lemma_doms_outer_trans(st.scopes, sta.scopes, stb.scopes);
            if is_expr(node) {
                lemma_doms_all_trans(st.scopes, sta.scopes, stb.scopes);
            }
        },
        AstNodes::CompileUnit(ss) => {
            lemma_block_doms(cfg, fuel, st, ss@, 0);
        },
        AstNodes::If(c, t, e) => {
            lemma_eval_doms(cfg, fuel, st, *c);
            let (sta, oa) = s_eval(cfg, fuel, st, *c);
            match oa {
                Out::Val(cv) => {
                    let pushed = EState {
                        scopes: sta.scopes.push(Map::empty()),
                        out: sta.out,
                    };
                    lemma_block_doms(cfg, fuel, pushed, t@, 0);
                    lemma_block_doms(cfg, fuel, pushed, e@, 0);
                    let (stt, ot) = s_block(cfg, fuel, pushed, t@, 0);
                    let (ste, oe) = s_block(cfg, fuel, pushed, e@, 0);
                    lemma_push_work_pop(sta.scopes, stt.scopes);
                    lemma_push_work_pop(sta.scopes, ste.scopes);
                    lemma_doms_outer_trans(st.scopes, sta.scopes, stt.scopes.drop_last());
                    lemma_doms_outer_trans(st.scopes, sta.scopes, ste.scopes.drop_last());
                },
                _ => {},
            }
        },
        AstNodes::While(_, _) => {
            let pushed = EState { scopes: st.scopes.push(Map::empty()), out: st.out };
            lemma_while_doms(cfg, fuel, pushed, node);
            let (sta, oa) = s_while(cfg, fuel, pushed, node);
            lemma_push_work_pop(st.scopes, sta.scopes);
        },
        AstNodes::For(_, s0, e0, p0, _) => {
            lemma_eval_doms(cfg, fuel, st, *s0);
            let (sta, oa) = s_eval(cfg, fuel, st, *s0);
            lemma_eval_doms(cfg, fuel, sta, *e0);
            let (stb, ob) = s_eval(cfg, fuel, sta, *e0);
            lemma_doms_outer_trans(st.scopes, sta.scopes, stb.scopes);
            lemma_eval_doms(cfg, fuel, stb, *p0);
            let (stc, oc) = s_eval(cfg, fuel, stb, *p0);
            lemma_doms_outer_trans(st.scopes, stb.scopes, stc.scopes);
            match (oa, ob, oc) {
                (Out::Val(v1), Out::Val(v2), Out::Val(v3)) => {
                    if v1 is Int && v2 is Int && v3 is Int && v3->Int_0 > 0 {
                        let pushed = EState {
                            scopes: stc.scopes.push(Map::empty()),
                            out: stc.out,
                        };
                        lemma_for_doms(
                            cfg,
                            fuel,
                            pushed,
                            node,
                            v1->Int_0,
                            v2->Int_0,
                            v3->Int_0,
                        );
                        let (std1, od) = s_for(
                            cfg,
                            fuel,
                            pushed,
                            node,
                            v1->Int_0,
                            v2->Int_0,
                            v3->Int_0,
                        );
                        lemma_push_work_pop(stc.scopes, std1.scopes);
                        lemma_doms_outer_trans(st.scopes, stc.scopes, std1.scopes.drop_last());
                    }
                },
                _ => {},
            }
        },
        AstNodes::Call(id, args) => match s_builtin(cfg.tbl, id) {
            Some(b) => {
                lemma_builtin_doms(cfg, fuel, st, b, args@);
            },
            None => match s_lookup(st.scopes, id) {
                Option::Some(sym) => match sym {
                    Sym::Func(params, body) => {
                        if fuel > 0 {
                            let pushed = EState {
                                scopes: st.scopes.push(Map::empty()),
                                out: st.out,
                            };
                            lemma_args_doms(cfg, fuel, pushed, params, args@, 0);
                            let (sta, oa) = s_args(cfg, fuel, pushed, params, args@, 0);
                            match oa {
                                Out::Val(_) => {
                                    lemma_block_doms(
                                        cfg,
                                        (fuel - 1) as nat,
                                        sta,
                                        body,
                                        0,
                                    );
                                    let (stb, ob) = s_block(
                                        cfg,
                                        (fuel - 1) as nat,
                                        sta,
                                        body,
                                        0,
                                    );
                                    lemma_doms_outer_trans(
                                        pushed.scopes,
                                        sta.scopes,
                                        stb.scopes,
                                    );
                                    lemma_push_work_pop(st.scopes, stb.scopes);
                                },
                                _ => {
                                    lemma_push_work_pop(st.scopes, sta.scopes);
                                },
                            }
                        }
                    },
                    _ => {},
                },
                Option::None => {},
            },
        },
    }
}

/// Block discipline: running statements in order changes binding domains
/// only in the innermost scope.
pub proof fn lemma_block_doms(cfg: Cfg, fuel: nat, st: EState, stmts: Seq<AstNodes>, i: int)
    requires
        st.scopes.len() > 0,
    ensures
        doms_outer(st.scopes, s_block(cfg, fuel, st, stmts, i).0.scopes),
    decreases fuel, stmts, stmts.len() - i,
{
    if 0 <= i < stmts.len() {
        lemma_eval_doms(cfg, fuel, st, stmts[i]);
        let (st1, o) = s_eval(cfg, fuel, st, stmts[i]);
        if o is Val {
            lemma_block_doms(cfg, fuel, st1, stmts, i + 1);
            lemma_doms_outer_trans(
                st.scopes,
                st1.scopes,
                s_block(cfg, fuel, st1, stmts, i + 1).0.scopes,
            );
        }
    }
}

/// Loop discipline: a `while` loop touches only its own (innermost) scope.
proof fn lemma_while_doms(cfg: Cfg, fuel: nat, st: EState, node: AstNodes)
    requires
        st.scopes.len() > 0,
    ensures
        doms_outer(st.scopes, s_while(cfg, fuel, st, node).0.scopes),
    decreases fuel, node, 1int,
{
    if node matches AstNodes::While(_, _) && fuel > 0 {
        let cond = node->While_0;
        let body = node->While_1;
        let cleared = EState {
            scopes: st.scopes.update(st.scopes.len() - 1, Map::empty()),
            out: st.out,
        };
        assert(doms_outer(st.scopes, cleared.scopes));
        lemma_eval_doms(cfg, fuel, cleared, *cond);
        let (st1, o) = s_eval(cfg, fuel, cleared, *cond);
        lemma_doms_outer_trans(st.scopes, cleared.scopes, st1.scopes);
        match o {
            Out::Val(cv) => {
                if cv is Int && cv->Int_0 > 0 {
                    lemma_block_doms(cfg, fuel, st1, body@, 0);
                    let (st2, o2) = s_block(cfg, fuel, st1, body@, 0);
                    lemma_doms_outer_trans(st.scopes, st1.scopes, st2.scopes);
                    match o2 {
                        Out::Val(_) => {
                            lemma_while_doms(cfg, (fuel - 1) as nat, st2, node);
                            lemma_doms_outer_trans(
                                st.scopes,
                                st2.scopes,
                                s_while(cfg, (fuel - 1) as nat, st2, node).0.scopes,
                            );
                        },
                        Out::Cont => {
                            lemma_while_doms(cfg, (fuel - 1) as nat, st2, node);
                            lemma_doms_outer_trans(
                                st.scopes,
                                st2.scopes,
                                s_while(cfg, (fuel - 1) as nat, st2, node).0.scopes,
                            );
                        },
                        _ => {},
                    }
                }
            },
            _ => {},
        }
    }
}

/// Loop discipline: a `for` loop touches only its own (innermost) scope.
proof fn lemma_for_doms(
    cfg: Cfg,
    fuel: nat,
    st: EState,
    node: AstNodes,
    cur: int,
    end: int,
    step: int,
)
    requires
        st.scopes.len() > 0,
    ensures
        doms_outer(st.scopes, s_for(cfg, fuel, st, node, cur, end, step).0.scopes),
    decreases fuel, node, 1int,
{
    if node matches AstNodes::For(_, _, _, _, _) && fuel > 0 && cur < end {
        let var = node->For_0;
        let body = node->For_4;
        let cleared = st.scopes.update(st.scopes.len() - 1, Map::empty());
        let bound = EState {
            scopes: s_insert(cleared, var, Sym::Const(Val::Int(cur))),
            out: st.out,
        };
        assert(doms_outer(st.scopes, bound.scopes));
        lemma_block_doms(cfg, fuel, bound, body@, 0);
        let (st1, o) = s_block(cfg, fuel, bound, body@, 0);
        lemma_doms_outer_trans(st.scopes, bound.scopes, st1.scopes);
        match o {
            Out::Val(_) => {
                lemma_for_doms(cfg, (fuel - 1) as nat, st1, node, cur + step, end, step);
                lemma_doms_outer_trans(
                    st.scopes,
                    st1.scopes,
                    s_for(cfg, (fuel - 1) as nat, st1, node, cur + step, end, step).0.scopes,
                );
            },
            Out::Cont => {
                lemma_for_doms(cfg, (fuel - 1) as nat, st1, node, cur + step, end, step);
                lemma_doms_outer_trans(
                    st.scopes,
                    st1.scopes,
                    s_for(cfg, (fuel - 1) as nat, st1, node, cur + step, end, step).0.scopes,
                );
            },
            _ => {},
        }
    }
}

/// Argument discipline: binding call arguments fills only the call's own
/// freshly pushed scope.
proof fn lemma_args_doms(
    cfg: Cfg,
    fuel: nat,
    st: EState,
    params: Seq<usize>,
    args: Seq<AstNodes>,
    i: int,
)
    requires
        st.scopes.len() > 0,
    ensures
        doms_outer(st.scopes, s_args(cfg, fuel, st, params, args, i).0.scopes),
    decreases fuel, args, args.len() - i,
{
    if 0 <= i < args.len() && i < params.len() {
        lemma_eval_doms(cfg, fuel, st, args[i]);
        let (st1, o) = s_eval(cfg, fuel, st, args[i]);
        match o {
            Out::Val(v) => {
                let st2 = EState {
                    scopes: s_insert(st1.scopes, params[i], Sym::Const(v)),
                    out: st1.out,
                };
                assert(doms_outer(st1.scopes, st2.scopes));
                lemma_doms_outer_trans(st.scopes, st1.scopes, st2.scopes);
                lemma_args_doms(cfg, fuel, st2, params, args, i + 1);
                lemma_doms_outer_trans(
                    st.scopes,
                    st2.scopes,
                    s_args(cfg, fuel, st2, params, args, i + 1).0.scopes,
                );
            },
            _ => {},
        }
    }
}

/// List-literal discipline: evaluating the elements of a literal made of
/// expressions changes no binding domain at all.
proof fn lemma_list_doms(
    cfg: Cfg,
    fuel: nat,
    st: EState,
    elems: Seq<AstNodes>,
    i: int,
    acc: Seq<Val>,
)
    requires
        st.scopes.len() > 0,
    ensures
        doms_outer(st.scopes, s_list_lit(cfg, fuel, st, elems, i, acc).0.scopes),
        all_exprs(elems) ==> doms_all(st.scopes, s_list_lit(cfg, fuel, st, elems, i, acc).0.scopes),
    decreases fuel, elems, elems.len() - i,
{
    if 0 <= i < elems.len() {
        lemma_eval_doms(cfg, fuel, st, elems[i]);
        let (st1, o) = s_eval(cfg, fuel, st, elems[i]);
        match o {
            Out::Val(v) => {
                lemma_list_doms(cfg, fuel, st1, elems, i + 1, acc.push(v));
                lemma_doms_outer_trans(
                    st.scopes,
                    st1.scopes,
                    s_list_lit(cfg, fuel, st1, elems, i + 1, acc.push(v)).0.scopes,
                );
                if all_exprs(elems) {
                    lemma_doms_all_trans(
                        st.scopes,
                        st1.scopes,
                        s_list_lit(cfg, fuel, st1, elems, i + 1, acc.push(v)).0.scopes,
                    );
                }
            },
            _ => {},
        }
    }
}

/// Print discipline: printing expressions changes output only, no binding
/// domain.
proof fn lemma_print_doms(cfg: Cfg, fuel: nat, st: EState, args: Seq<AstNodes>, i: int)
    requires
        st.scopes.len() > 0,
    ensures
        doms_outer(st.scopes, s_print_args(cfg, fuel, st, args, i).0.scopes),
        all_exprs(args) ==> doms_all(st.scopes, s_print_args(cfg, fuel, st, args, i).0.scopes),
    decreases fuel, args, args.len() - i,
{
    if 0 <= i < args.len() {
        lemma_eval_doms(cfg, fuel, st, args[i]);
        let (st1, o) = s_eval(cfg, fuel, st, args[i]);
        match o {
            Out::Val(v) => {
                let sep: Seq<char> = if i == 0 {
                    Seq::empty()
                } else {
                    seq![' ']
                };
                let st2 = EState {
                    scopes: st1.scopes,
                    out: st1.out.add(sep).add(render_val(v)),
                };
                lemma_print_doms(cfg, fuel, st2, args, i + 1);
                lemma_doms_outer_trans(
                    st.scopes,
                    st1.scopes,
                    s_print_args(cfg, fuel, st2, args, i + 1).0.scopes,
                );
                if all_exprs(args) {
                    lemma_doms_all_trans(
                        st.scopes,
                        st1.scopes,
                        s_print_args(cfg, fuel, st2, args, i + 1).0.scopes,
                    );
                }
            },
            _ => {},
        }
    }
}

/// Built-in discipline: the list built-ins rewrite list payloads in place
/// and never change a binding domain; with expression arguments nothing
/// changes any domain.
proof fn lemma_builtin_doms(cfg: Cfg, fuel: nat, st: EState, b: Builtin, args: Seq<AstNodes>)
    requires
        st.scopes.len() > 0,
    ensures
        doms_outer(st.scopes, s_call_builtin(cfg, fuel, st, b, args).0.scopes),
        all_exprs(args) ==> doms_all(st.scopes, s_call_builtin(cfg, fuel, st, b, args).0.scopes),
    decreases fuel, args, args.len() + 1,
{
    match b {
        Builtin::Print => {
            if cfg.printer {
                lemma_print_doms(cfg, fuel, st, args, 0);
            }
        },
        Builtin::Append => {
            if args.len() == 2 && args[0] matches AstNodes::ReadVar(_) {
                let lid = args[0]->ReadVar_0;
                lemma_eval_doms(cfg, fuel, st, args[1]);
                let (st1, o) = s_eval(cfg, fuel, st, args[1]);
                match o {
                    Out::Val(v) => {
                        if s_list_items(st1.scopes, lid) is Ok {
                            lemma_with_items_doms(
                                st1.scopes,
                                lid,
                                s_list_items(st1.scopes, lid)->Ok_0.push(v),
                            );
                            lemma_doms_outer_trans(
                                st.scopes,
                                st1.scopes,
                                s_with_items(
                                    st1.scopes,
                                    lid,
                                    s_list_items(st1.scopes, lid)->Ok_0.push(v),
                                ),
                            );
                            if all_exprs(args) {
                                lemma_doms_all_trans(
                                    st.scopes,
                                    st1.scopes,
                                    s_with_items(
                                        st1.scopes,
                                        lid,
                                        s_list_items(st1.scopes, lid)->Ok_0.push(v),
                                    ),
                                );
                            }
                        }
                    },
                    _ => {},
                }
            }
        },
        Builtin::Insert => {
            if args.len() == 3 && args[0] matches AstNodes::ReadVar(_) {
                let lid = args[0]->ReadVar_0;
                lemma_eval_doms(cfg, fuel, st, args[1]);
                let (st1, o1) = s_eval(cfg, fuel, st, args[1]);
                match o1 {
                    Out::Val(iv) => {
                        if iv is Int && 0 <= iv->Int_0 <= usize::MAX {
                            lemma_eval_doms(cfg, fuel, st1, args[2]);
                            let (st2, o2) = s_eval(cfg, fuel, st1, args[2]);
                            lemma_doms_outer_trans(st.scopes, st1.scopes, st2.scopes);
                            if all_exprs(args) {
                                lemma_doms_all_trans(st.scopes, st1.scopes, st2.scopes);
                            }
                            match o2 {
                                Out::Val(v) => {
                                    if s_list_items(st2.scopes, lid) is Ok {
                                        let items = s_list_items(st2.scopes, lid)->Ok_0;
                                        if 0 <= iv->Int_0 <= items.len() {
                                            lemma_with_items_doms(
                                                st2.scopes,
                                                lid,
                                                items.insert(iv->Int_0, v),
                                            );
                                            lemma_doms_outer_trans(
                                                st.scopes,
                                                st2.scopes,
                                                s_with_items(
                                                    st2.scopes,
                                                    lid,
                                                    items.insert(iv->Int_0, v),
                                                ),
                                            );
                                            if all_exprs(args) {
                                                lemma_doms_all_trans(
                                                    st.scopes,
                                                    st2.scopes,
                                                    s_with_items(
                                                        st2.scopes,
                                                        lid,
                                                        items.insert(iv->Int_0, v),
                                                    ),
                                                );
                                            }
                                        }
                                    }
                                },
                                _ => {},
                            }
                        }
                    },
                    _ => {},
                }
            }
        },
        Builtin::Len => {},
        Builtin::Remove => {
            if args.len() == 2 && args[0] matches AstNodes::ReadVar(_) {
                let lid = args[0]->ReadVar_0;
                lemma_eval_doms(cfg, fuel, st, args[1]);
                let (st1, o1) = s_eval(cfg, fuel, st, args[1]);
                match o1 {
                    Out::Val(iv) => {
                        if iv is Int && 0 <= iv->Int_0 <= usize::MAX {
                            if s_list_items(st1.scopes, lid) is Ok {
                                let items = s_list_items(st1.scopes, lid)->Ok_0;
                                if 0 <= iv->Int_0 < items.len() {
                                    lemma_with_items_doms(
                                        st1.scopes,
                                        lid,
                                        items.remove(iv->Int_0),
                                    );
                                    lemma_doms_outer_trans(
                                        st.scopes,
                                        st1.scopes,
                                        s_with_items(st1.scopes, lid, items.remove(iv->Int_0)),
                                    );
                                    if all_exprs(args) {
                                        lemma_doms_all_trans(
                                            st.scopes,
                                            st1.scopes,
                                            s_with_items(
                                                st1.scopes,
                                                lid,
                                                items.remove(iv->Int_0),
                                            ),
                                        );
                                    }
                                }
                            }
                        }
                    },
                    _ => {},
                }
            }
        },
    }
}

/// Scoping law: an `if`, `while` or `for` statement whose condition, bounds
/// and step are expressions leaves every scope binding exactly the ids it
/// bound before.  A `var`, `const` or `fn` defined inside the construct's
/// body is therefore unreachable after it: an id unbound before the
/// construct still resolves to [`Error::SymbolNotFound`] after it.
pub proof fn lemma_construct_scopes_restored(
    cfg: Cfg,
    fuel: nat,
    st: EState,
    node: AstNodes,
    id: usize,
)
    requires
        st.scopes.len() > 0,
        match node {
            AstNodes::While(_, _) => true,
            AstNodes::If(c, _, _) => is_expr(*c),
            AstNodes::For(_, s0, e0, p0, _) => is_expr(*s0) && is_expr(*e0) && is_expr(*p0),
            _ => false,
        },
    ensures
        ({
            let (st1, o) = s_eval(cfg, fuel, st, node);
            &&& doms_all(st.scopes, st1.scopes)
            &&& s_owner(st1.scopes, id) == s_owner(st.scopes, id)
            &&& (s_lookup(st.scopes, id) is None ==> s_read(st1.scopes, id) == Err::<Val, Error>(
                Error::SymbolNotFound,
            ))
        }),
{
    let (st1, o) = s_eval(cfg, fuel, st, node);
    match node {
        AstNodes::While(_, _) => {
            let pushed = EState { scopes: st.scopes.push(Map::empty()), out: st.out };
            lemma_while_doms(cfg, fuel, pushed, node);
            let (sta, oa) = s_while(cfg, fuel, pushed, node);
            lemma_push_work_pop(st.scopes, sta.scopes);
        },
        AstNodes::If(c, t, e) => {
            lemma_eval_doms(cfg, fuel, st, *c);
            let (sta, oa) = s_eval(cfg, fuel, st, *c);
            match oa {
                Out::Val(cv) => {
                    let pushed = EState {
                        scopes: sta.scopes.push(Map::empty()),
                        out: sta.out,
                    };
                    lemma_block_doms(cfg, fuel, pushed, t@, 0);
                    lemma_block_doms(cfg, fuel, pushed, e@, 0);
                    let (stt, ot) = s_block(cfg, fuel, pushed, t@, 0);
                    let (ste, oe) = s_block(cfg, fuel, pushed, e@, 0);
                    lemma_push_work_pop(sta.scopes, stt.scopes);
                    lemma_push_work_pop(sta.scopes, ste.scopes);
                    lemma_doms_all_trans(st.scopes, sta.scopes, stt.scopes.drop_last());
                    lemma_doms_all_trans(st.scopes, sta.scopes, ste.scopes.drop_last());
                },
                _ => {},
            }
        },
        AstNodes::For(_, s0, e0, p0, _) => {
            lemma_eval_doms(cfg, fuel, st, *s0);
            let (sta, oa) = s_eval(cfg, fuel, st, *s0);
            lemma_eval_doms(cfg, fuel, sta, *e0);
            let (stb, ob) = s_eval(cfg, fuel, sta, *e0);
            lemma_doms_all_trans(st.scopes, sta.scopes, stb.scopes);
            lemma_eval_doms(cfg, fuel, stb, *p0);
            let (stc, oc) = s_eval(cfg, fuel, stb, *p0);
            lemma_doms_all_trans(st.scopes, stb.scopes, stc.scopes);
            match (oa, ob, oc) {
                (Out::Val(v1), Out::Val(v2), Out::Val(v3)) => {
                    if v1 is Int && v2 is Int && v3 is Int && v3->Int_0 > 0 {
                        let pushed = EState {
                            scopes: stc.scopes.push(Map::empty()),
                            out: stc.out,
                        };
                        lemma_for_doms(
                            cfg,
                            fuel,
                            pushed,
                            node,
                            v1->Int_0,
                            v2->Int_0,
                            v3->Int_0,
                        );
                        let (std1, od) = s_for(
                            cfg,
                            fuel,
                            pushed,
                            node,
                            v1->Int_0,
                            v2->Int_0,
                            v3->Int_0,
                        );
                        lemma_push_work_pop(stc.scopes, std1.scopes);
                        lemma_doms_all_trans(st.scopes, stc.scopes, std1.scopes.drop_last());
                    }
                },
                _ => {},
            }
        },
        _ => {},
    }
    assert forall|i: int| 0 <= i < st.scopes.len() implies (#[trigger] st1.scopes[i]).dom()
        == st.scopes[i].dom() by {}
    lemma_s_owner_same_doms(st.scopes, st1.scopes, id);
    lemma_s_owner(st.scopes, id);
}

} // verus!