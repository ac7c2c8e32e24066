//! The tree-walking evaluator.
//!
//! [`Interpreter::visit`] evaluates one node and is proved to return exactly
//! what the specification-level evaluator [`s_eval`](super::sem::s_eval)
//! says, both for the value or fault and for the scope chain and printed
//! output it leaves behind.

#![verifier::loop_isolation(false)]

use vstd::prelude::*;

use crate::ast::{ast_wf, block_wf, AstNodes, Op};
use super::result::{Error, EvalResult, Exit};
use crate::bigint::BigInt;
use super::scope::{rc_dup, Symbol, SymbolTables};
use super::sem::{res_out, res_wf, s_apply_op, s_args, s_block, s_builtin, s_call_builtin, s_eval, s_for, s_list_lit, s_print_args, s_while, Builtin, Cfg, EState, Out};
use super::value::{render_val, val_of, vals_of, value_wf, CrValue, Val};

verus! {

/// The default evaluation budget: every function call and loop iteration
/// costs one unit.  The bound stands in for the host call-stack and time
/// limits; no terminating program of realistic size comes near it.
pub const DEFAULT_FUEL: u64 = 0xffff_ffff_ffff_ffff;

/// The interpreter: the scope chain, the interned identifier table handed
/// over by the front end, and the buffering print sink.
pub struct Interpreter {
    symbol_tables: SymbolTables,
    string_table: Vec<String>,
    printer: bool,
    output: Vec<char>,
}

impl Interpreter {
    /// The immutable surroundings of the evaluation.
    pub closed spec fn cfg(&self) -> Cfg {
        Cfg { tbl: self.string_table@.map_values(|s: String| s@), printer: self.printer }
    }

    /// The current evaluation state.
    pub closed spec fn st(&self) -> EState {
        EState { scopes: self.symbol_tables@, out: self.output@ }
    }

    /// The scope chain is well-formed.
    pub closed spec fn wf(&self) -> bool {
        self.symbol_tables.wf()
    }

    /// A fresh interpreter bound to an identifier table: one empty global
    /// scope, nothing printed, no print sink installed.
    pub fn new(string_table: Vec<String>) -> (r: Interpreter)
        ensures
            r.wf(),
            r.st().scopes =~= seq![Map::empty()],
            r.st().out =~= Seq::<char>::empty(),
            r.cfg().tbl =~= string_table@.map_values(|s: String| s@),
            !r.cfg().printer,
    {
        Interpreter {
            symbol_tables: SymbolTables::new(),
            string_table,
            printer: false,
            output: Vec::new(),
        }
    }

    /// Installs the print sink: from here on `print` appends to the output
    /// buffer instead of failing with [`Error::NoPrinter`].
    pub fn set_printer(&mut self)
        ensures
            final(self).wf() == old(self).wf(),
            final(self).st() == old(self).st(),
            final(self).cfg() == (Cfg { tbl: old(self).cfg().tbl, printer: true }),
    {
        self.printer = true;
    }

    /// Everything printed so far.
    pub fn output(&self) -> (r: &Vec<char>)
        ensures
            r@ == self.st().out,
    {
        &self.output
    }

    /// Which built-in a name id denotes, if any.
    fn builtin_of(&self, id: usize) -> (r: Option<Builtin>)
        ensures
            r == s_builtin(self.cfg().tbl, id),
    {
        if id >= self.string_table.len() {
            return None;
        }
        let name = &self.string_table[id];
        proof {
            assert(self.cfg().tbl[id as int] == name@);
        }
        if *name == "print".to_owned() {
            Some(Builtin::Print)
        } else if *name == "append".to_owned() {
            Some(Builtin::Append)
        } else if *name == "insert".to_owned() {
            Some(Builtin::Insert)
        } else if *name == "len".to_owned() {
            Some(Builtin::Len)
        } else if *name == "remove".to_owned() {
            Some(Builtin::Remove)
        } else {
            None
        }
    }

    /// Evaluates one node under the default budget, turning a control-flow
    /// signal that escaped to the top into the matching fault: a stray
    /// `break`/`continue` is [`Error::NotInLoop`], a stray `return` is
    /// [`Error::RetValInVoidFunc`].
    pub fn visit(&mut self, node: &AstNodes) -> (r: Result<CrValue, Error>)
        requires
            old(self).wf(),
            old(self).st().scopes.len() > 0,
            ast_wf(*node),
        ensures
            final(self).wf(),
            final(self).cfg() == old(self).cfg(),
            final(self).st().scopes.len() == old(self).st().scopes.len(),
            ({
                let (st1, o) = s_eval(old(self).cfg(), DEFAULT_FUEL as nat, old(self).st(), *node);
                &&& final(self).st() == st1
                &&& match o {
                    Out::Val(v) => match r {
                        Ok(c) => val_of(c) == v && value_wf(c),
                        Err(_) => false,
                    },
                    Out::Brk => r == Err::<CrValue, Error>(Error::NotInLoop),
                    Out::Cont => r == Err::<CrValue, Error>(Error::NotInLoop),
                    Out::Ret(_) => r == Err::<CrValue, Error>(Error::RetValInVoidFunc),
                    Out::Fault(e) => r == Err::<CrValue, Error>(e),
                }
            }),
    {
        match self.visit_node(node, DEFAULT_FUEL) {
            Ok(v) => Ok(v),
            Err(Exit::Break) => Err(Error::NotInLoop),
            Err(Exit::Continue) => Err(Error::NotInLoop),
            Err(Exit::Return(_)) => Err(Error::RetValInVoidFunc),
            Err(Exit::Fault(e)) => Err(e),
        }
    }

    /// Evaluates one node with an explicit budget; returns exactly what the
    /// specification-level evaluator says.
    pub fn visit_node(&mut self, node: &AstNodes, fuel: u64) -> (r: EvalResult)
        requires
            old(self).wf(),
            old(self).st().scopes.len() > 0,
            ast_wf(*node),
        ensures
            final(self).wf(),
            final(self).cfg() == old(self).cfg(),
            final(self).st().scopes.len() == old(self).st().scopes.len(),
            s_eval(old(self).cfg(), fuel as nat, old(self).st(), *node) == (
                final(self).st(),
                res_out(r),
            ),
            res_wf(r),
        decreases fuel, *node, 2int,
    {
        match node {
            AstNodes::Number(b) => Ok(CrValue::Number(b.duplicate())),
            AstNodes::ReadVar(id) => match self.symbol_tables.symbol_clone_value(*id) {
                Ok(v) => Ok(v),
                Err(e) => Err(Exit::Fault(e)),
            },
            AstNodes::Break => Err(Exit::Break),
            AstNodes::Continue => Err(Exit::Continue),
            AstNodes::Return(e) => match self.visit_node(e, fuel) {
                Ok(v) => Err(Exit::Return(v)),
                Err(x) => Err(x),
            },
            AstNodes::UnaryOp(op, e) => match self.visit_node(e, fuel) {
                Ok(v) => match v.as_int() {
                    Ok(b) => {
                        let n = if *op == Op::Sub {
                            b.negated()
                        } else {
                            b.duplicate()
                        };
                        Ok(CrValue::Number(n))
                    },
                    Err(err) => Err(Exit::Fault(err)),
                },
                Err(x) => Err(x),
            },
            AstNodes::VarDef(id, e) => match self.visit_node(e, fuel) {
                Ok(v) => {
                    self.symbol_tables.insert_sym(Symbol::Var(*id, v));
                    Ok(CrValue::Void)
                },
                Err(x) => Err(x),
            },
            AstNodes::ConstDef(id, e) => match self.visit_node(e, fuel) {
                Ok(v) => {
                    self.symbol_tables.insert_sym(Symbol::Const(*id, v));
                    Ok(CrValue::Void)
                },
                Err(x) => Err(x),
            },
            AstNodes::FunctionDef(id, params, body) => {
                self.symbol_tables.insert_sym(
                    Symbol::Function(*id, rc_dup(params), rc_dup(body)),
                );
                Ok(CrValue::Void)
            },
            AstNodes::Index(id, ixe) => match self.visit_node(ixe, fuel) {
                Ok(v) => match v.as_int() {
                    Ok(b) => match b.to_usize() {
                        Some(ix) => match self.symbol_tables.symbol_crvalue_list_item(*id, ix) {
                            Ok(c) => Ok(c),
                            Err(e) => Err(Exit::Fault(e)),
                        },
                        None => Err(Exit::Fault(Error::IndexOutOfRange)),
                    },
                    Err(err) => Err(Exit::Fault(err)),
                },
                Err(x) => Err(x),
            },
            AstNodes::Assign(_, _, _) => self.visit_assign(node, fuel),
            AstNodes::BinaryOp(_, _, _) => self.visit_binary_op(node, fuel),
            AstNodes::CompileUnit(stmts) => self.visit_block(stmts, fuel),
            AstNodes::If(_, _, _) => self.visit_if(node, fuel),
            AstNodes::While(_, _) => self.visit_while(node, fuel),
            AstNodes::For(_, _, _, _, _) => self.visit_for(node, fuel),
            AstNodes::List(_) => self.visit_list(node, fuel),
            AstNodes::TemplateList(_, _) => self.visit_template_list(node, fuel),
            AstNodes::Call(_, _) => self.visit_call(node, fuel),
        }
    }

    /// Statements of a block, in order; stops at the first abrupt outcome.
    fn visit_block(&mut self, stmts: &Vec<AstNodes>, fuel: u64) -> (r: EvalResult)
        requires
            old(self).wf(),
            old(self).st().scopes.len() > 0,
            block_wf(stmts@),
        ensures
            final(self).wf(),
            final(self).cfg() == old(self).cfg(),
            final(self).st().scopes.len() == old(self).st().scopes.len(),
            s_block(old(self).cfg(), fuel as nat, old(self).st(), stmts@, 0) == (
                final(self).st(),
                res_out(r),
            ),
            res_wf(r),
        decreases fuel, *stmts, 0int,
    {
        let ghost cfg = self.cfg();
        let ghost st0 = self.st();
        let mut i: usize = 0;
        let mut res: EvalResult = Ok(CrValue::Void);
        #[verifier::loop_isolation(true)]
        loop
            invariant_except_break
                self.wf(),
                self.cfg() == cfg,
                self.st().scopes.len() == st0.scopes.len(),
                st0.scopes.len() > 0,
                i <= stmts@.len(),
                block_wf(stmts@),
                s_block(cfg, fuel as nat, st0, stmts@, 0) == s_block(
                    cfg,
                    fuel as nat,
                    self.st(),
                    stmts@,
                    i as int,
                ),
            ensures
                self.wf(),
                self.cfg() == cfg,
                self.st().scopes.len() == st0.scopes.len(),
                s_block(cfg, fuel as nat, st0, stmts@, 0) == (self.st(), res_out(res)),
                res_wf(res),
            decreases stmts@.len() - i,
        {
            if i >= stmts.len() {
                proof {
                    assert(s_block(cfg, fuel as nat, self.st(), stmts@, i as int) == (
                        self.st(),
                        Out::Val(Val::Void),
                    ));
                }
                res = Ok(CrValue::Void);
                break;
            }
            let r = self.visit_node(&stmts[i], fuel);
            match r {
                Ok(_) => {
                    i = i + 1;
                },
                Err(x) => {
                    res = Err(x);
                    break;
                },
            }
        }
        res
    }

    /// Both operands to integers, then the operator's result.
    fn visit_binary_op(&mut self, node: &AstNodes, fuel: u64) -> (r: EvalResult)
        requires
            old(self).wf(),
            old(self).st().scopes.len() > 0,
            ast_wf(*node),
            node matches AstNodes::BinaryOp(_, _, _),
        ensures
            final(self).wf(),
            final(self).cfg() == old(self).cfg(),
            final(self).st().scopes.len() == old(self).st().scopes.len(),
            s_eval(old(self).cfg(), fuel as nat, old(self).st(), *node) == (
                final(self).st(),
                res_out(r),
            ),
            res_wf(r),
        decreases fuel, *node, 1int,
    {
        if let AstNodes::BinaryOp(l, op, rgt) = node {
            match self.visit_node(l, fuel) {
                Ok(v1) => match v1.as_int() {
                    Ok(a) => match self.visit_node(rgt, fuel) {
                        Ok(v2) => match v2.as_int() {
                            Ok(b) => match apply_binary(*op, a, b) {
                                Ok(n) => Ok(CrValue::Number(n)),
                                Err(err) => Err(Exit::Fault(err)),
                            },
                            Err(err) => Err(Exit::Fault(err)),
                        },
                        Err(x) => Err(x),
                    },
                    Err(err) => Err(Exit::Fault(err)),
                },
                Err(x) => Err(x),
            }
        } else {
            proof {
                assert(false);
            }
            Err(Exit::Fault(Error::UnknownOperator))
        }
    }

    /// The right-hand side first, then the optional index, then the write.
    fn visit_assign(&mut self, node: &AstNodes, fuel: u64) -> (r: EvalResult)
        requires
            old(self).wf(),
            old(self).st().scopes.len() > 0,
            ast_wf(*node),
            node matches AstNodes::Assign(_, _, _),
        ensures
            final(self).wf(),
            final(self).cfg() == old(self).cfg(),
            final(self).st().scopes.len() == old(self).st().scopes.len(),
            s_eval(old(self).cfg(), fuel as nat, old(self).st(), *node) == (
                final(self).st(),
                res_out(r),
            ),
            res_wf(r),
        decreases fuel, *node, 1int,
    {
        if let AstNodes::Assign(id, ix, e) = node {
            match self.visit_node(e, fuel) {
                Ok(v) => match ix {
                    None => match self.symbol_tables.symbol_assign(*id, v) {
                        Ok(_) => Ok(CrValue::Void),
                        Err(er) => Err(Exit::Fault(er)),
                    },
                    Some(ixe) => match self.visit_node(ixe, fuel) {
                        Ok(iv) => match iv.as_int() {
                            Ok(b) => match b.to_usize() {
                                Some(ixu) => match self.symbol_tables.symbol_list_modify(
                                    *id,
                                    ixu,
                                    v,
                                ) {
                                    Ok(_) => Ok(CrValue::Void),
                                    Err(er) => Err(Exit::Fault(er)),
                                },
                                None => Err(Exit::Fault(Error::IndexOutOfRange)),
                            },
                            Err(err) => Err(Exit::Fault(err)),
                        },
                        Err(x) => Err(x),
                    },
                },
                Err(x) => Err(x),
            }
        } else {
            proof {
                assert(false);
            }
            Err(Exit::Fault(Error::UnknownOperator))
        }
    }

    /// The chosen branch in a fresh child scope.
    fn visit_if(&mut self, node: &AstNodes, fuel: u64) -> (r: EvalResult)
        requires
            old(self).wf(),
            old(self).st().scopes.len() > 0,
            ast_wf(*node),
            node matches AstNodes::If(_, _, _),
        ensures
            final(self).wf(),
            final(self).cfg() == old(self).cfg(),
            final(self).st().scopes.len() == old(self).st().scopes.len(),
            s_eval(old(self).cfg(), fuel as nat, old(self).st(), *node) == (
                final(self).st(),
                res_out(r),
            ),
            res_wf(r),
        decreases fuel, *node, 1int,
    {
        if let AstNodes::If(c, t, e) = node {
            match self.visit_node(c, fuel) {
                Ok(cv) => match cv.as_int() {
                    Ok(b) => {
                        let cond = b.is_positive();
                        self.symbol_tables.push_new();
                        let rb = if cond {
                            self.visit_block(t, fuel)
                        } else {
                            self.visit_block(e, fuel)
                        };
                        let _ = self.symbol_tables.pop();
                        rb
                    },
                    Err(err) => Err(Exit::Fault(err)),
                },
                Err(x) => Err(x),
            }
        } else {
            proof {
                assert(false);
            }
            Err(Exit::Fault(Error::UnknownOperator))
        }
    }

    /// A `while` loop: one child scope for the whole loop, cleared before
    /// each condition test; `break` ends the loop with void, `continue` ends
    /// the body early.
    fn visit_while(&mut self, node: &AstNodes, fuel: u64) -> (r: EvalResult)
        requires
            old(self).wf(),
            old(self).st().scopes.len() > 0,
            ast_wf(*node),
            node matches AstNodes::While(_, _),
        ensures
            final(self).wf(),
            final(self).cfg() == old(self).cfg(),
            final(self).st().scopes.len() == old(self).st().scopes.len(),
            s_eval(old(self).cfg(), fuel as nat, old(self).st(), *node) == (
                final(self).st(),
                res_out(r),
            ),
            res_wf(r),
        decreases fuel, *node, 1int,
    {
        if let AstNodes::While(c, body) = node {
            self.symbol_tables.push_new();
            let ghost cfg = self.cfg();
            let ghost stp = self.st();
            let mut f: u64 = fuel;
            let mut res: EvalResult = Ok(CrValue::Void);
            #[verifier::loop_isolation(true)]
            loop
                invariant_except_break
                    self.wf(),
                    self.cfg() == cfg,
                    self.st().scopes.len() == stp.scopes.len(),
                    stp.scopes.len() > 0,
                    f <= fuel,
                    *node matches AstNodes::While(_, _),
                    *c == node->While_0,
                    *body == node->While_1,
                    ast_wf(*node),
                    s_while(cfg, fuel as nat, stp, *node) == s_while(
                        cfg,
                        f as nat,
                        self.st(),
                        *node,
                    ),
                ensures
                    self.wf(),
                    self.cfg() == cfg,
                    self.st().scopes.len() == stp.scopes.len(),
                    s_while(cfg, fuel as nat, stp, *node) == (self.st(), res_out(res)),
                    res_wf(res),
                decreases f,
            {
                let ghost st_it = self.st();
                if f == 0 {
                    res = Err(Exit::Fault(Error::OutOfFuel));
                    break;
                }
                self.symbol_tables.clear_last();
                match self.visit_node(c, f) {
                    Ok(cv) => match cv.as_int() {
                        Ok(b) => {
                            if !b.is_positive() {
                                res = Ok(CrValue::Void);
                                break;
                            }
                            match self.visit_block(body, f) {
                                Ok(_) => {
                                    proof {
                                        assert(s_while(cfg, f as nat, st_it, *node) == s_while(
                                            cfg,
                                            (f - 1) as nat,
                                            self.st(),
                                            *node,
                                        ));
                                    }
                                    f = f - 1;
                                },
                                Err(Exit::Continue) => {
                                    proof {
                                        assert(s_while(cfg, f as nat, st_it, *node) == s_while(
                                            cfg,
                                            (f - 1) as nat,
                                            self.st(),
                                            *node,
                                        ));
                                    }
                                    f = f - 1;
                                },
                                Err(Exit::Break) => {
                                    res = Ok(CrValue::Void);
                                    break;
                                },
                                Err(x) => {
                                    res = Err(x);
                                    break;
                                },
                            }
                        },
                        Err(err) => {
                            res = Err(Exit::Fault(err));
                            break;
                        },
                    },
                    Err(x) => {
                        res = Err(x);
                        break;
                    },
                }
            }
            let _ = self.symbol_tables.pop();
            res
        } else {
            proof {
                assert(false);
            }
            Err(Exit::Fault(Error::UnknownOperator))
        }
    }

    /// A `for` loop: bounds and step evaluated once, one child scope for the
    /// whole loop, the loop variable rebound as a constant each iteration.
    fn visit_for(&mut self, node: &AstNodes, fuel: u64) -> (r: EvalResult)
        requires
            old(self).wf(),
            old(self).st().scopes.len() > 0,
            ast_wf(*node),
            node matches AstNodes::For(_, _, _, _, _),
        ensures
            final(self).wf(),
            final(self).cfg() == old(self).cfg(),
            final(self).st().scopes.len() == old(self).st().scopes.len(),
            s_eval(old(self).cfg(), fuel as nat, old(self).st(), *node) == (
                final(self).st(),
                res_out(r),
            ),
            res_wf(r),
        decreases fuel, *node, 1int,
    {
        if let AstNodes::For(var, s0, e0, p0, body) = node {
            let rv = match self.visit_node(s0, fuel) {
                Ok(v) => v,
                Err(x) => {
                    return Err(x);
                },
            };
            let start = match rv.as_int() {
                Ok(b) => b.duplicate(),
                Err(err) => {
                    return Err(Exit::Fault(err));
                },
            };
            let rv2 = match self.visit_node(e0, fuel) {
                Ok(v) => v,
                Err(x) => {
                    return Err(x);
                },
            };
            let end = match rv2.as_int() {
                Ok(b) => b.duplicate(),
                Err(err) => {
                    return Err(Exit::Fault(err));
                },
            };
            let rv3 = match self.visit_node(p0, fuel) {
                Ok(v) => v,
                Err(x) => {
                    return Err(x);
                },
            };
            let step = match rv3.as_int() {
                Ok(b) => b.duplicate(),
                Err(err) => {
                    return Err(Exit::Fault(err));
                },
            };
            if !step.is_positive() {
                return Err(Exit::Fault(Error::ValueOutOfRange));
            }
            self.symbol_tables.push_new();
            let ghost cfg = self.cfg();
            let ghost stp = self.st();
            let mut cur = start;
            let mut f: u64 = fuel;
            let mut res: EvalResult = Ok(CrValue::Void);
            #[verifier::loop_isolation(true)]
            loop
                invariant_except_break
                    self.wf(),
                    self.cfg() == cfg,
                    self.st().scopes.len() == stp.scopes.len(),
                    stp.scopes.len() > 0,
                    f <= fuel,
                    cur.wf(),
                    end.wf(),
                    step.wf(),
                    *node matches AstNodes::For(_, _, _, _, _),
                    *var == node->For_0,
                    *body == node->For_4,
                    ast_wf(*node),
                    s_for(cfg, fuel as nat, stp, *node, start@, end@, step@) == s_for(
                        cfg,
                        f as nat,
                        self.st(),
                        *node,
                        cur@,
                        end@,
                        step@,
                    ),
                ensures
                    self.wf(),
                    self.cfg() == cfg,
                    self.st().scopes.len() == stp.scopes.len(),
                    s_for(cfg, fuel as nat, stp, *node, start@, end@, step@) == (
                        self.st(),
                        res_out(res),
                    ),
                    res_wf(res),
                decreases f,
            {
                let ghost st_it = self.st();
                if f == 0 {
                    res = Err(Exit::Fault(Error::OutOfFuel));
                    break;
                }
                if !(cur.cmp_with(&end) == -1) {
                    res = Ok(CrValue::Void);
                    break;
                }
                self.symbol_tables.clear_last();
                self.symbol_tables.insert_sym(Symbol::Const(*var, CrValue::Number(
                    cur.duplicate(),
                )));
                match self.visit_block(body, f) {
                    Ok(_) => {
                        let next = cur.plus(&step);
                        proof {
                            assert(s_for(cfg, f as nat, st_it, *node, cur@, end@, step@)
                                == s_for(
                                cfg,
                                (f - 1) as nat,
                                self.st(),
                                *node,
                                cur@ + step@,
                                end@,
                                step@,
                            ));
                        }
                        cur = next;
                        f = f - 1;
                    },
                    Err(Exit::Continue) => {
                        let next = cur.plus(&step);
                        proof {
                            assert(s_for(cfg, f as nat, st_it, *node, cur@, end@, step@)
                                == s_for(
                                cfg,
                                (f - 1) as nat,
                                self.st(),
                                *node,
                                cur@ + step@,
                                end@,
                                step@,
                            ));
                        }
                        cur = next;
                        f = f - 1;
                    },
                    Err(Exit::Break) => {
                        res = Ok(CrValue::Void);
                        break;
                    },
                    Err(x) => {
                        res = Err(x);
                        break;
                    },
                }
            }
            let _ = self.symbol_tables.pop();
            res
        } else {
            proof {
                assert(false);
            }
            Err(Exit::Fault(Error::UnknownOperator))
        }
    }

    /// A list literal: every element expression, in order.
    fn visit_list(&mut self, node: &AstNodes, fuel: u64) -> (r: EvalResult)
        requires
            old(self).wf(),
            old(self).st().scopes.len() > 0,
            ast_wf(*node),
            node matches AstNodes::List(_),
        ensures
            final(self).wf(),
            final(self).cfg() == old(self).cfg(),
            final(self).st().scopes.len() == old(self).st().scopes.len(),
            s_eval(old(self).cfg(), fuel as nat, old(self).st(), *node) == (
                final(self).st(),
                res_out(r),
            ),
            res_wf(r),
        decreases fuel, *node, 1int,
    {
        if let AstNodes::List(elems) = node {
            let ghost cfg = self.cfg();
            let ghost st0 = self.st();
            let mut acc: Vec<CrValue> = Vec::new();
            let mut i: usize = 0;
            let mut res: EvalResult = Ok(CrValue::Void);
            proof {
                assert(vals_of(acc@) =~= Seq::<Val>::empty());
            }
            #[verifier::loop_isolation(true)]
            loop
                invariant_except_break
                    self.wf(),
                    self.cfg() == cfg,
                    self.st().scopes.len() == st0.scopes.len(),
                    st0.scopes.len() > 0,
                    i <= elems@.len(),
                    acc@.len() == i,
                    block_wf(elems@),
                    *node matches AstNodes::List(_),
                    *elems == node->List_0,
                    forall|k: int| 0 <= k < i ==> value_wf(#[trigger] acc@[k]),
                    s_list_lit(cfg, fuel as nat, st0, elems@, 0, Seq::empty()) == s_list_lit(
                        cfg,
                        fuel as nat,
                        self.st(),
                        elems@,
                        i as int,
                        vals_of(acc@),
                    ),
                ensures
                    self.wf(),
                    self.cfg() == cfg,
                    self.st().scopes.len() == st0.scopes.len(),
                    s_list_lit(cfg, fuel as nat, st0, elems@, 0, Seq::empty()) == (
                        self.st(),
                        res_out(res),
                    ),
                    res_wf(res),
                decreases elems@.len() - i,
            {
                if i >= elems.len() {
                    proof {
                        assert(s_list_lit(
                            cfg,
                            fuel as nat,
                            self.st(),
                            elems@,
                            i as int,
                            vals_of(acc@),
                        ) == (self.st(), Out::Val(Val::List(vals_of(acc@)))));
                    }
                    res = Ok(CrValue::List(acc));
                    break;
                }
                match self.visit_node(&elems[i], fuel) {
                    Ok(v) => {
                        let ghost acc0 = vals_of(acc@);
                        let ghost vv = val_of(v);
                        acc.push(v);
                        proof {
                            assert(vals_of(acc@) =~= acc0.push(vv));
                        }
                        i = i + 1;
                    },
                    Err(x) => {
                        res = Err(x);
                        break;
                    },
                }
            }
            res
        } else {
            proof {
                assert(false);
            }
            Err(Exit::Fault(Error::UnknownOperator))
        }
    }

    /// A template list: the template once, the count once, then the value
    /// repeated that many times.
    fn visit_template_list(&mut self, node: &AstNodes, fuel: u64) -> (r: EvalResult)
        requires
            old(self).wf(),
            old(self).st().scopes.len() > 0,
            ast_wf(*node),
            node matches AstNodes::TemplateList(_, _),
        ensures
            final(self).wf(),
            final(self).cfg() == old(self).cfg(),
            final(self).st().scopes.len() == old(self).st().scopes.len(),
            s_eval(old(self).cfg(), fuel as nat, old(self).st(), *node) == (
                final(self).st(),
                res_out(r),
            ),
            res_wf(r),
        decreases fuel, *node, 1int,
    {
        if let AstNodes::TemplateList(tmpl, cnt) = node {
            let tv = match self.visit_node(tmpl, fuel) {
                Ok(v) => v,
                Err(x) => {
                    return Err(x);
                },
            };
            let cv = match self.visit_node(cnt, fuel) {
                Ok(v) => v,
                Err(x) => {
                    return Err(x);
                },
            };
            let n = match cv.as_int() {
                Ok(b) => match b.to_usize() {
                    Some(n) => n,
                    None => {
                        return Err(Exit::Fault(Error::ValueOutOfRange));
                    },
                },
                Err(err) => {
                    return Err(Exit::Fault(err));
                },
            };
            let mut acc: Vec<CrValue> = Vec::new();
            let mut k: usize = 0;
            while k < n
                invariant
                    k <= n,
                    acc@.len() == k,
                    value_wf(tv) && val_of(tv) == val_of(tv),
                    forall|j: int|
                        0 <= j < k ==> val_of(#[trigger] acc@[j]) == val_of(tv) && value_wf(
                            acc@[j],
                        ),
                decreases n - k,
            {
                let c = tv.duplicate();
                acc.push(c);
                k = k + 1;
            }
            proof {
                assert(vals_of(acc@) =~= Seq::new(n as nat, |i: int| val_of(tv)));
            }
            Ok(CrValue::List(acc))
        } else {
            proof {
                assert(false);
            }
            Err(Exit::Fault(Error::UnknownOperator))
        }
    }

    /// A call: the five built-ins first, then a user-defined function in a
    /// fresh scope whose parameters are bound as constants to the evaluated
    /// arguments, pairwise.
    fn visit_call(&mut self, node: &AstNodes, fuel: u64) -> (r: EvalResult)
        requires
            old(self).wf(),
            old(self).st().scopes.len() > 0,
            ast_wf(*node),
            node matches AstNodes::Call(_, _),
        ensures
            final(self).wf(),
            final(self).cfg() == old(self).cfg(),
            final(self).st().scopes.len() == old(self).st().scopes.len(),
            s_eval(old(self).cfg(), fuel as nat, old(self).st(), *node) == (
                final(self).st(),
                res_out(r),
            ),
            res_wf(r),
        decreases fuel, *node, 1int,
    {
        if let AstNodes::Call(id, args) = node {
            let ghost cfg0 = old(self).cfg();
            let ghost st0 = old(self).st();
            match self.builtin_of(*id) {
                Some(Builtin::Print) => {
                    let r = self.builtin_print(args, fuel);
                    proof {
                        assert(s_eval(cfg0, fuel as nat, st0, *node) == (self.st(), res_out(r)));
                    }
                    r
                },
                Some(Builtin::Append) => {
                    let r = self.builtin_append(args, fuel);
                    proof {
                        assert(s_eval(cfg0, fuel as nat, st0, *node) == (self.st(), res_out(r)));
                    }
                    r
                },
                Some(Builtin::Insert) => {
                    let r = self.builtin_insert(args, fuel);
                    proof {
                        assert(s_eval(cfg0, fuel as nat, st0, *node) == (self.st(), res_out(r)));
                    }
                    r
                },
                Some(Builtin::Len) => {
                    let r = self.builtin_len(args, fuel);
                    proof {
                        assert(s_eval(cfg0, fuel as nat, st0, *node) == (self.st(), res_out(r)));
                    }
                    r
                },
                Some(Builtin::Remove) => {
                    let r = self.builtin_remove(args, fuel);
                    proof {
                        assert(s_eval(cfg0, fuel as nat, st0, *node) == (self.st(), res_out(r)));
                    }
                    r
                },
                None => match self.symbol_tables.symbol_clone(*id) {
                    Err(_) => Err(Exit::Fault(Error::SymbolNotFound)),
                    Ok(sym) => match sym {
                        Symbol::Function(_, params, body) => {
                            if fuel == 0 {
                                return Err(Exit::Fault(Error::OutOfFuel));
                            }
                            self.symbol_tables.push_new();
                            let ghost cfg = self.cfg();
                            let ghost stp = self.st();
                            let ps: &Vec<usize> = &params;
                            let bd: &Vec<AstNodes> = &body;
                            let n = if ps.len() < args.len() {
                                ps.len()
                            } else {
                                args.len()
                            };
                            let mut i: usize = 0;
                            let mut failed: Option<Exit> = None;
                            #[verifier::loop_isolation(true)]
                            loop
                                invariant_except_break
                                    self.wf(),
                                    self.cfg() == cfg,
                                    self.st().scopes.len() == stp.scopes.len(),
                                    stp.scopes.len() > 0,
                                    i <= n,
                                    n <= ps@.len(),
                                    n <= args@.len(),
                                    n == if ps@.len() < args@.len() {
                                        ps@.len() as int
                                    } else {
                                        args@.len() as int
                                    },
                                    block_wf(args@),
                                    failed is None,
                                    *node matches AstNodes::Call(_, _),
                                    *args == node->Call_1,
                                    s_args(cfg, fuel as nat, stp, ps@, args@, 0) == s_args(
                                        cfg,
                                        fuel as nat,
                                        self.st(),
                                        ps@,
                                        args@,
                                        i as int,
                                    ),
                                ensures
                                    self.wf(),
                                    self.cfg() == cfg,
                                    self.st().scopes.len() == stp.scopes.len(),
                                    match failed {
                                        None => s_args(cfg, fuel as nat, stp, ps@, args@, 0) == (
                                            self.st(),
                                            Out::Val(Val::Void),
                                        ),
                                        Some(x) => s_args(cfg, fuel as nat, stp, ps@, args@, 0) == (
                                            self.st(),
                                            res_out(Err::<CrValue, Exit>(x)),
                                        ) && res_wf(Err::<CrValue, Exit>(x)),
                                    },
                                decreases n - i,
                            {
                                if i >= n {
                                    proof {
                                        assert(s_args(
                                            cfg,
                                            fuel as nat,
                                            self.st(),
                                            ps@,
                                            args@,
                                            i as int,
                                        ) == (self.st(), Out::Val(Val::Void)));
                                    }
                                    break;
                                }
                                match self.visit_node(&args[i], fuel) {
                                    Ok(v) => {
                                        self.symbol_tables.insert_sym(
                                            Symbol::Const(ps[i], v),
                                        );
                                        i = i + 1;
                                    },
                                    Err(x) => {
                                        failed = Some(x);
                                        break;
                                    },
                                }
                            }
                            match failed {
                                Some(x) => {
                                    let _ = self.symbol_tables.pop();
                                    proof {
                                        assert(s_eval(cfg0, fuel as nat, st0, *node) == (
                                            self.st(),
                                            res_out(Err::<CrValue, Exit>(x)),
                                        ));
                                    }
                                    Err(x)
                                },
                                None => {
                                    let rb = self.visit_block(bd, fuel - 1);
                                    let _ = self.symbol_tables.pop();
                                    let r2: EvalResult = match rb {
                                        Ok(_) => Ok(CrValue::Void),
                                        Err(Exit::Return(v)) => Ok(v),
                                        Err(x) => Err(x),
                                    };
                                    proof {
                                        assert(s_eval(cfg0, fuel as nat, st0, *node) == (
                                            self.st(),
                                            res_out(r2),
                                        ));
                                    }
                                    r2
                                },
                            }
                        },
                        _ => Err(Exit::Fault(Error::SymbolNotFound)),
                    },
                },
            }
        } else {
            proof {
                assert(false);
            }
            Err(Exit::Fault(Error::UnknownOperator))
        }
    }

    /// The `print` built-in: arguments written out space-separated with a
    /// trailing newline, or [`Error::NoPrinter`] when no sink is installed.
    fn builtin_print(&mut self, args: &Vec<AstNodes>, fuel: u64) -> (r: EvalResult)
        requires
            old(self).wf(),
            old(self).st().scopes.len() > 0,
            block_wf(args@),
        ensures
            final(self).wf(),
            final(self).cfg() == old(self).cfg(),
            final(self).st().scopes.len() == old(self).st().scopes.len(),
            s_call_builtin(old(self).cfg(), fuel as nat, old(self).st(), Builtin::Print, args@)
                == (final(self).st(), res_out(r)),
            res_wf(r),
        decreases fuel, *args, 0int,
    {
        if !self.printer {
            return Err(Exit::Fault(Error::NoPrinter));
        }
        let ghost cfg = self.cfg();
        let ghost st0 = self.st();
        let mut i: usize = 0;
        let mut res: EvalResult = Ok(CrValue::Void);
        #[verifier::loop_isolation(true)]
        loop
            invariant_except_break
                self.wf(),
                self.cfg() == cfg,
                self.st().scopes.len() == st0.scopes.len(),
                st0.scopes.len() > 0,
                i <= args@.len(),
                block_wf(args@),
                s_print_args(cfg, fuel as nat, st0, args@, 0) == s_print_args(
                    cfg,
                    fuel as nat,
                    self.st(),
                    args@,
                    i as int,
                ),
            ensures
                self.wf(),
                self.cfg() == cfg,
                self.st().scopes.len() == st0.scopes.len(),
                s_print_args(cfg, fuel as nat, st0, args@, 0) == (self.st(), res_out(res)),
                res_wf(res),
            decreases args@.len() - i,
        {
            if i >= args.len() {
                self.output.push('\n');
                res = Ok(CrValue::Void);
                break;
            }
            match self.visit_node(&args[i], fuel) {
                Ok(v) => {
                    let ghost st1 = self.st();
                    if i > 0 {
                        self.output.push(' ');
                    }
                    v.render(&mut self.output);
                    proof {
                        let sep: Seq<char> = if i == 0 {
                            Seq::empty()
                        } else {
                            seq![' ']
                        };
                        assert(self.st().out =~= st1.out.add(sep).add(render_val(val_of(v))));
                    }
                    i = i + 1;
                },
                Err(x) => {
                    res = Err(x);
                    break;
                },
            }
        }
        res
    }

    /// The `append` built-in: a bare list variable and one value.
    fn builtin_append(&mut self, args: &Vec<AstNodes>, fuel: u64) -> (r: EvalResult)
        requires
            old(self).wf(),
            old(self).st().scopes.len() > 0,
            block_wf(args@),
        ensures
            final(self).wf(),
            final(self).cfg() == old(self).cfg(),
            final(self).st().scopes.len() == old(self).st().scopes.len(),
            s_call_builtin(old(self).cfg(), fuel as nat, old(self).st(), Builtin::Append, args@)
                == (final(self).st(), res_out(r)),
            res_wf(r),
        decreases fuel, *args, 0int,
    {
        if args.len() != 2 {
            return Err(Exit::Fault(Error::ArgMismatch));
        }
        let lid = match &args[0] {
            AstNodes::ReadVar(lid) => *lid,
            _ => {
                return Err(Exit::Fault(Error::ArgMismatch));
            },
        };
        let v = match self.visit_node(&args[1], fuel) {
            Ok(v) => v,
            Err(x) => {
                return Err(x);
            },
        };
        match self.symbol_tables.symbol_list_append(lid, v) {
            Ok(_) => Ok(CrValue::Void),
            Err(e) => Err(Exit::Fault(e)),
        }
    }

    /// The `insert` built-in: a bare list variable, an index and a value.
    fn builtin_insert(&mut self, args: &Vec<AstNodes>, fuel: u64) -> (r: EvalResult)
        requires
            old(self).wf(),
            old(self).st().scopes.len() > 0,
            block_wf(args@),
        ensures
            final(self).wf(),
            final(self).cfg() == old(self).cfg(),
            final(self).st().scopes.len() == old(self).st().scopes.len(),
            s_call_builtin(old(self).cfg(), fuel as nat, old(self).st(), Builtin::Insert, args@)
                == (final(self).st(), res_out(r)),
            res_wf(r),
        decreases fuel, *args, 0int,
    {
        if args.len() != 3 {
            return Err(Exit::Fault(Error::ArgMismatch));
        }
        let lid = match &args[0] {
            AstNodes::ReadVar(lid) => *lid,
            _ => {
                return Err(Exit::Fault(Error::ArgMismatch));
            },
        };
        let iv = match self.visit_node(&args[1], fuel) {
            Ok(v) => v,
            Err(x) => {
                return Err(x);
            },
        };
        let ix = match iv.as_int() {
            Ok(b) => match b.to_usize() {
                Some(ix) => ix,
                None => {
                    return Err(Exit::Fault(Error::IndexOutOfRange));
                },
            },
            Err(err) => {
                return Err(Exit::Fault(err));
            },
        };
        let v = match self.visit_node(&args[2], fuel) {
            Ok(v) => v,
            Err(x) => {
                return Err(x);
            },
        };
        match self.symbol_tables.symbol_list_insert(lid, ix, v) {
            Ok(_) => Ok(CrValue::Void),
            Err(e) => Err(Exit::Fault(e)),
        }
    }

    /// The `len` built-in: the element count of a bare list variable.
    fn builtin_len(&mut self, args: &Vec<AstNodes>, fuel: u64) -> (r: EvalResult)
        requires
            old(self).wf(),
            old(self).st().scopes.len() > 0,
            block_wf(args@),
        ensures
            final(self).wf(),
            final(self).cfg() == old(self).cfg(),
            final(self).st().scopes.len() == old(self).st().scopes.len(),
            s_call_builtin(old(self).cfg(), fuel as nat, old(self).st(), Builtin::Len, args@) == (
                final(self).st(),
                res_out(r),
            ),
            res_wf(r),
    {
        if args.len() != 1 {
            return Err(Exit::Fault(Error::ArgMismatch));
        }
        let lid = match &args[0] {
            AstNodes::ReadVar(lid) => *lid,
            _ => {
                return Err(Exit::Fault(Error::ArgMismatch));
            },
        };
        match self.symbol_tables.symbol_crvalue_len(lid) {
            Ok(n) => Ok(CrValue::Number(BigInt::from_u64(n as u64))),
            Err(e) => Err(Exit::Fault(e)),
        }
    }

    /// The `remove` built-in: takes one element out of a bare list variable
    /// and returns it.
    fn builtin_remove(&mut self, args: &Vec<AstNodes>, fuel: u64) -> (r: EvalResult)
        requires
            old(self).wf(),
            old(self).st().scopes.len() > 0,
            block_wf(args@),
        ensures
            final(self).wf(),
            final(self).cfg() == old(self).cfg(),
            final(self).st().scopes.len() == old(self).st().scopes.len(),
            s_call_builtin(old(self).cfg(), fuel as nat, old(self).st(), Builtin::Remove, args@)
                == (final(self).st(), res_out(r)),
            res_wf(r),
        decreases fuel, *args, 0int,
    {
        if args.len() != 2 {
            return Err(Exit::Fault(Error::ArgMismatch));
        }
        let lid = match &args[0] {
            AstNodes::ReadVar(lid) => *lid,
            _ => {
                return Err(Exit::Fault(Error::ArgMismatch));
            },
        };
        let iv = match self.visit_node(&args[1], fuel) {
            Ok(v) => v,
            Err(x) => {
                return Err(x);
            },
        };
        let ix = match iv.as_int() {
            Ok(b) => match b.to_usize() {
                Some(ix) => ix,
                None => {
                    return Err(Exit::Fault(Error::IndexOutOfRange));
                },
            },
            Err(err) => {
                return Err(Exit::Fault(err));
            },
        };
        match self.symbol_tables.symbol_list_remove(lid, ix) {
            Ok(c) => Ok(c),
            Err(e) => Err(Exit::Fault(e)),
        }
    }
}

/// The value 1 for a true comparison, 0 for a false one.
fn big_flag(c: bool) -> (r: BigInt)
    ensures
        r.wf(),
        r@ == if c {
            1int
        } else {
            0int
        },
{
    if c {
        BigInt::from_u64(1)
    } else {
        BigInt::zero()
    }
}

/// A binary operator on two integers; see
/// [`s_apply_op`](super::sem::s_apply_op) for the result it must produce.
fn apply_binary(op: Op, a: &BigInt, b: &BigInt) -> (r: Result<BigInt, Error>)
    requires
        a.wf(),
        b.wf(),
    ensures
        match s_apply_op(op, a@, b@) {
            Ok(i) => match r {
                Ok(n) => n@ == i && n.wf(),
                Err(_) => false,
            },
            Err(e) => r == Err::<BigInt, Error>(e),
        },
{
    match op {
        Op::Add => Ok(a.plus(b)),
        Op::Sub => Ok(a.minus(b)),
        Op::Mul => Ok(a.times(b)),
        Op::Div => if b.is_zero() {
            Err(Error::DivisionByZero)
        } else {
            Ok(a.div_trunc(b))
        },
        Op::Rem => if b.is_zero() {
            Err(Error::ModuloByZero)
        } else {
            Ok(a.rem_trunc(b))
        },
        Op::Eq => Ok(big_flag(a.cmp_with(b) == 0)),
        Op::Ne => Ok(big_flag(a.cmp_with(b) != 0)),
        Op::Le => Ok(big_flag(a.cmp_with(b) <= 0)),
        Op::Ge => Ok(big_flag(a.cmp_with(b) >= 0)),
        Op::Lt => Ok(big_flag(a.cmp_with(b) < 0)),
        Op::Gt => Ok(big_flag(a.cmp_with(b) > 0)),
        Op::Or => Ok(big_flag(a.is_positive() || b.is_positive())),
        Op::And => Ok(big_flag(a.is_positive() && b.is_positive())),
        Op::LShift => match b.to_usize() {
            Some(k) => Ok(a.shl_by(k)),
            None => Err(Error::ValueOutOfRange),
        },
        Op::RShift => match b.to_usize() {
            Some(k) => Ok(a.shr_by(k)),
            None => Err(Error::ValueOutOfRange),
        },
    }
}

} // verus!
