//! The lexical scope chain.
//!
//! A [`SymbolTables`] is a stack of scopes; the last one is the innermost.
//! Name resolution walks from the innermost scope toward the root and takes
//! the first match.  The spec-level model of the chain is a sequence of maps
//! from identifier id to [`Sym`]; every method's contract is stated as a
//! transition on that model, shared with the specification-level evaluator.

#![verifier::loop_isolation(false)]

use std::collections::BTreeMap;
use std::rc::Rc;
use vstd::prelude::*;

use crate::ast::{block_wf, AstNodes};
use super::result::Error;
use super::value::{val_of, value_wf, vals_of, CrValue, Val};

verus! {

/// The model of a binding: a constant, a variable, or a function with its
/// parameter ids and body.
pub ghost enum Sym {
    Const(Val),
    Var(Val),
    Func(Seq<usize>, Seq<AstNodes>),
}

/// Relies on std's `Rc::clone`: hands back a second handle to the same value.
#[verifier::external_body]
pub(crate) fn rc_dup<T>(rc: &Rc<T>) -> (r: Rc<T>)
    ensures
        r == *rc,
{
    Rc::clone(rc)
}

/// A binding: a constant, a reassignable variable, or a function.  The first
/// field is the interned identifier id the binding is filed under.
#[derive(Debug)]
pub enum Symbol {
    Const(usize, CrValue),
    Var(usize, CrValue),
    Function(usize, Rc<Vec<usize>>, Rc<Vec<AstNodes>>),
}

/// The id a symbol is filed under.
pub open spec fn spec_sym_id(s: Symbol) -> usize {
    match s {
        Symbol::Const(id, _) => id,
        Symbol::Var(id, _) => id,
        Symbol::Function(id, _, _) => id,
    }
}

/// The model of a symbol.
pub open spec fn sym_of(s: Symbol) -> Sym {
    match s {
        Symbol::Const(_, v) => Sym::Const(val_of(v)),
        Symbol::Var(_, v) => Sym::Var(val_of(v)),
        Symbol::Function(_, p, b) => Sym::Func(p@, b@),
    }
}

/// Well-formedness of a symbol: its value or body is well-formed.
pub open spec fn symbol_wf(s: Symbol) -> bool {
    match s {
        Symbol::Const(_, v) => value_wf(v),
        Symbol::Var(_, v) => value_wf(v),
        Symbol::Function(_, _, b) => block_wf(b@),
    }
}

impl Symbol {
    /// The id the binding is filed under.
    pub fn get_id(&self) -> (r: usize)
        ensures
            r == spec_sym_id(*self),
    {
        match self {
            Symbol::Const(id, _) => *id,
            Symbol::Var(id, _) => *id,
            Symbol::Function(id, _, _) => *id,
        }
    }

    /// The stored value; a function binding has none and yields
    /// [`Error::UseVoidValue`].
    pub fn get_value(&self) -> (r: Result<&CrValue, Error>)
        ensures
            match r {
                Ok(v) => (*self == Symbol::Const(spec_sym_id(*self), *v) || *self == Symbol::Var(
                    spec_sym_id(*self),
                    *v,
                )),
                Err(e) => e == Error::UseVoidValue && self is Function,
            },
    {
        match self {
            Symbol::Const(_, value) => Ok(value),
            Symbol::Var(_, value) => Ok(value),
            Symbol::Function(_, _, _) => Err(Error::UseVoidValue),
        }
    }

    /// Replaces the payload of a variable; a constant or function refuses the
    /// write with [`Error::BadAssign`] and keeps its value.
    pub fn assign(&mut self, value: CrValue) -> (r: Result<(), Error>)
        ensures
            match r {
                Ok(()) => *old(self) is Var && *final(self) == Symbol::Var(
                    spec_sym_id(*old(self)),
                    value,
                ),
                Err(e) => e == Error::BadAssign && !(*old(self) is Var) && *final(self) == *old(
                    self,
                ),
            },
    {
        match self {
            Symbol::Const(_, _) | Symbol::Function(_, _, _) => Err(Error::BadAssign),
            Symbol::Var(id, old_value) => {
                *old_value = value;
                Ok(())
            },
        }
    }
}

/// One scope: a mapping from identifier id to binding.
pub struct SymbolTable {
    symbols: BTreeMap<usize, Symbol>,
}

impl View for SymbolTable {
    type V = Map<usize, Sym>;

    closed spec fn view(&self) -> Map<usize, Sym> {
        self.symbols@.map_values(|s: Symbol| sym_of(s))
    }
}

impl SymbolTable {
    /// All stored symbols are well-formed and filed under their own id.
    pub closed spec fn wf(&self) -> bool {
        forall|k: usize|
            self.symbols@.dom().contains(k) ==> symbol_wf(#[trigger] self.symbols@[k])
                && spec_sym_id(self.symbols@[k]) == k
    }

    /// A fresh, empty scope.
    pub fn new() -> (r: SymbolTable)
        ensures
            r@ == Map::<usize, Sym>::empty(),
            r.wf(),
    {
        let r = SymbolTable { symbols: BTreeMap::new() };
        proof {
            assert(r@ =~= Map::<usize, Sym>::empty());
        }
        r
    }

    /// Adds or overwrites the binding for the symbol's id.
    pub fn insert(&mut self, symbol: Symbol)
        requires
            old(self).wf(),
            symbol_wf(symbol),
        ensures
            final(self).wf(),
            final(self)@ == old(self)@.insert(spec_sym_id(symbol), sym_of(symbol)),
    {
        let id = symbol.get_id();
        self.symbols.insert(id, symbol);
        proof {
            assert(final(self)@ =~= old(self)@.insert(spec_sym_id(symbol), sym_of(symbol)));
        }
    }

    /// Empties the scope's own bindings.
    pub fn clear(&mut self)
        ensures
            final(self).wf(),
            final(self)@ == Map::<usize, Sym>::empty(),
    {
        self.symbols.clear();
        proof {
            assert(final(self)@ =~= Map::<usize, Sym>::empty());
        }
    }

    /// Borrows the binding for `id`, if any.
    fn get_sym(&self, id: usize) -> (r: Option<&Symbol>)
        requires
            self.wf(),
        ensures
            match r {
                Some(s) => self@.contains_key(id) && sym_of(*s) == self@[id] && symbol_wf(*s)
                    && spec_sym_id(*s) == id,
                None => !self@.contains_key(id),
            },
    {
        let r = self.symbols.get(&id);
        proof {
            match r {
                Some(s) => {
                    assert(self.symbols@.contains_key(id) && self.symbols@[id] == *s);
                    assert(self@[id] == sym_of(*s));
                },
                None => {
                    assert(!self.symbols@.contains_key(id));
                },
            }
        }
        r
    }

    /// Removes and returns the binding for `id`, if any.
    fn take(&mut self, id: usize) -> (r: Option<Symbol>)
        requires
            old(self).wf(),
        ensures
            final(self).wf(),
            match r {
                Some(s) => old(self)@.contains_key(id) && sym_of(s) == old(self)@[id] && symbol_wf(
                    s,
                ) && spec_sym_id(s) == id && final(self)@ =~= old(self)@.remove(id),
                None => !old(self)@.contains_key(id) && final(self)@ == old(self)@,
            },
    {
        let r = self.symbols.remove(&id);
        proof {
            assert(self.symbols@ == old(self).symbols@.remove(id));
            if r is Some {
                assert(old(self).symbols@.contains_key(id) && old(self).symbols@[id]
                    == r->Some_0);
                assert(self@ =~= old(self)@.remove(id));
            } else {
                assert(!old(self).symbols@.contains_key(id));
                assert(self@ =~= old(self)@);
            }
        }
        r
    }
}

/// Innermost scope holding `id`: the largest index whose map binds `id`, or
/// `-1` when no scope in the chain does.
pub open spec fn s_owner(scopes: Seq<Map<usize, Sym>>, id: usize) -> int
    decreases scopes.len(),
{
    if scopes.len() == 0 {
        -1
    } else if scopes.last().contains_key(id) {
        scopes.len() - 1
    } else {
        s_owner(scopes.drop_last(), id)
    }
}

/// Resolution, innermost scope first.
pub open spec fn s_lookup(scopes: Seq<Map<usize, Sym>>, id: usize) -> Option<Sym> {
    let o = s_owner(scopes, id);
    if o >= 0 {
        Some(scopes[o][id])
    } else {
        None
    }
}

pub proof fn lemma_s_owner(scopes: Seq<Map<usize, Sym>>, id: usize)
    ensures
        -1 <= s_owner(scopes, id) < scopes.len(),
        s_owner(scopes, id) == -1 ==> forall|i: int|
            0 <= i < scopes.len() ==> !(#[trigger] scopes[i]).contains_key(id),
        s_owner(scopes, id) >= 0 ==> scopes[s_owner(scopes, id)].contains_key(id) && forall|i: int|
            s_owner(scopes, id) < i < scopes.len() ==> !(#[trigger] scopes[i]).contains_key(id),
    decreases scopes.len(),
{
    if scopes.len() > 0 && !scopes.last().contains_key(id) {
        let rest = scopes.drop_last();
        lemma_s_owner(rest, id);
        let o = s_owner(scopes, id);
        if o >= 0 {
            assert(rest[o] == scopes[o]);
            assert forall|i: int| o < i < scopes.len() implies !(#[trigger] scopes[i]).contains_key(
                id,
            ) by {
                if i < scopes.len() - 1 {
                    assert(scopes[i] == rest[i]);
                }
            }
        } else {
            assert forall|i: int| 0 <= i < scopes.len() implies !(
            #[trigger] scopes[i]).contains_key(id) by {
                if i < scopes.len() - 1 {
                    assert(scopes[i] == rest[i]);
                }
            }
        }
    }
}

/// [`s_owner`] depends only on the domains of the scopes.
pub proof fn lemma_s_owner_same_doms(
    s1: Seq<Map<usize, Sym>>,
    s2: Seq<Map<usize, Sym>>,
    id: usize,
)
    requires
        s1.len() == s2.len(),
        forall|i: int| 0 <= i < s1.len() ==> (#[trigger] s1[i]).dom() == s2[i].dom(),
    ensures
        s_owner(s1, id) == s_owner(s2, id),
    decreases s1.len(),
{
    if s1.len() > 0 {
        assert(s1.last().dom() == s2.last().dom());
        assert(s1.last().contains_key(id) <==> s2.last().contains_key(id));
        if !s1.last().contains_key(id) {
            assert(forall|i: int|
                0 <= i < s1.len() - 1 ==> (#[trigger] s1.drop_last()[i]).dom()
                    == s2.drop_last()[i].dom());
            lemma_s_owner_same_doms(s1.drop_last(), s2.drop_last(), id);
        }
    }
}

/// Adds or overwrites a binding in the innermost scope.
pub open spec fn s_insert(scopes: Seq<Map<usize, Sym>>, id: usize, sym: Sym) -> Seq<
    Map<usize, Sym>,
> {
    scopes.update(scopes.len() - 1, scopes.last().insert(id, sym))
}

/// Value of a binding read as a value: a function binding is no value.
pub open spec fn s_read(scopes: Seq<Map<usize, Sym>>, id: usize) -> Result<Val, Error> {
    match s_lookup(scopes, id) {
        Option::None => Err(Error::SymbolNotFound),
        Option::Some(sym) => match sym {
            Sym::Const(v) => Ok(v),
            Sym::Var(v) => Ok(v),
            Sym::Func(_, _) => Err(Error::UseVoidValue),
        },
    }
}

/// Write to the owning scope's binding: only a variable accepts it.
pub open spec fn s_assign(scopes: Seq<Map<usize, Sym>>, id: usize, v: Val) -> Result<
    Seq<Map<usize, Sym>>,
    Error,
> {
    let o = s_owner(scopes, id);
    if o == -1 {
        Err(Error::SymbolNotFound)
    } else {
        match scopes[o][id] {
            Sym::Var(_) => Ok(scopes.update(o, scopes[o].insert(id, Sym::Var(v)))),
            _ => Err(Error::BadAssign),
        }
    }
}

/// The list items of the binding, when the binding holds a list value.
pub open spec fn s_list_items(scopes: Seq<Map<usize, Sym>>, id: usize) -> Result<Seq<Val>, Error> {
    match s_read(scopes, id) {
        Err(e) => Err(e),
        Ok(v) => match v {
            Val::List(items) => Ok(items),
            _ => Err(Error::UseVoidValue),
        },
    }
}

/// The chain with the owning binding's list payload replaced, keeping the
/// binding's constness.
pub open spec fn s_with_items(scopes: Seq<Map<usize, Sym>>, id: usize, items: Seq<Val>) -> Seq<
    Map<usize, Sym>,
> {
    let o = s_owner(scopes, id);
    let sym = if scopes[o][id] is Const {
        Sym::Const(Val::List(items))
    } else {
        Sym::Var(Val::List(items))
    };
    scopes.update(o, scopes[o].insert(id, sym))
}

/// Appends to the list bound at `id`, wherever in the chain it lives.
pub open spec fn s_list_append(scopes: Seq<Map<usize, Sym>>, id: usize, v: Val) -> Result<
    Seq<Map<usize, Sym>>,
    Error,
> {
    match s_list_items(scopes, id) {
        Err(e) => Err(e),
        Ok(items) => Ok(s_with_items(scopes, id, items.push(v))),
    }
}

/// Inserts into the list bound at `id` at position `ix`, shifting the rest.
pub open spec fn s_list_insert(scopes: Seq<Map<usize, Sym>>, id: usize, ix: int, v: Val) -> Result<
    Seq<Map<usize, Sym>>,
    Error,
> {
    match s_list_items(scopes, id) {
        Err(e) => Err(e),
        Ok(items) => if 0 <= ix <= items.len() {
            Ok(s_with_items(scopes, id, items.insert(ix, v)))
        } else {
            Err(Error::IndexOutOfRange)
        },
    }
}

/// Overwrites one element of the list bound at `id`.
pub open spec fn s_list_modify(scopes: Seq<Map<usize, Sym>>, id: usize, ix: int, v: Val) -> Result<
    Seq<Map<usize, Sym>>,
    Error,
> {
    match s_list_items(scopes, id) {
        Err(e) => Err(e),
        Ok(items) => if 0 <= ix < items.len() {
            Ok(s_with_items(scopes, id, items.update(ix, v)))
        } else {
            Err(Error::IndexOutOfRange)
        },
    }
}

/// Removes and returns one element of the list bound at `id`.
pub open spec fn s_list_remove(scopes: Seq<Map<usize, Sym>>, id: usize, ix: int) -> Result<
    (Seq<Map<usize, Sym>>, Val),
    Error,
> {
    match s_list_items(scopes, id) {
        Err(e) => Err(e),
        Ok(items) => if 0 <= ix < items.len() {
            Ok((s_with_items(scopes, id, items.remove(ix)), items[ix]))
        } else {
            Err(Error::IndexOutOfRange)
        },
    }
}

/// Number of elements of the list bound at `id`.
pub open spec fn s_list_len(scopes: Seq<Map<usize, Sym>>, id: usize) -> Result<int, Error> {
    match s_list_items(scopes, id) {
        Err(e) => Err(e),
        Ok(items) => Ok(items.len() as int),
    }
}

/// One element of the list bound at `id`.
pub open spec fn s_list_item(scopes: Seq<Map<usize, Sym>>, id: usize, ix: int) -> Result<
    Val,
    Error,
> {
    match s_list_items(scopes, id) {
        Err(e) => Err(e),
        Ok(items) => if 0 <= ix < items.len() {
            Ok(items[ix])
        } else {
            Err(Error::IndexOutOfRange)
        },
    }
}

/// A list binding of the given constness.
pub open spec fn list_sym(c: bool, items: Seq<Val>) -> Sym {
    if c {
        Sym::Const(Val::List(items))
    } else {
        Sym::Var(Val::List(items))
    }
}

/// Removing a binding and putting the same one back leaves the chain as it
/// was.
proof fn lemma_put_back_same(
    orig: Seq<Map<usize, Sym>>,
    cur: Seq<Map<usize, Sym>>,
    j: int,
    id: usize,
)
    requires
        0 <= j < orig.len(),
        orig[j].contains_key(id),
        cur =~= orig.update(j, orig[j].remove(id)).update(
            j,
            orig.update(j, orig[j].remove(id))[j].insert(id, orig[j][id]),
        ),
    ensures
        cur =~= orig,
{
    assert(orig[j].remove(id).insert(id, orig[j][id]) =~= orig[j]);
}

/// Removing a binding and inserting a new one under the same id is one
/// insertion.
proof fn lemma_put_back_new(
    orig: Seq<Map<usize, Sym>>,
    cur: Seq<Map<usize, Sym>>,
    j: int,
    id: usize,
    sym: Sym,
)
    requires
        0 <= j < orig.len(),
        cur =~= orig.update(j, orig[j].remove(id)).update(
            j,
            orig.update(j, orig[j].remove(id))[j].insert(id, sym),
        ),
    ensures
        cur =~= orig.update(j, orig[j].insert(id, sym)),
{
    assert(orig[j].remove(id).insert(id, sym) =~= orig[j].insert(id, sym));
}

/// The scope chain: a stack of scopes, the last one innermost.
pub struct SymbolTables {
    tables: Vec<SymbolTable>,
}

impl View for SymbolTables {
    type V = Seq<Map<usize, Sym>>;

    closed spec fn view(&self) -> Seq<Map<usize, Sym>> {
        self.tables@.map_values(|t: SymbolTable| t@)
    }
}

impl SymbolTables {
    /// Every scope on the stack is well-formed.
    pub closed spec fn wf(&self) -> bool {
        forall|i: int| 0 <= i < self.tables@.len() ==> (#[trigger] self.tables@[i]).wf()
    }

    /// A chain holding just the (empty) global scope.
    pub fn new() -> (r: SymbolTables)
        ensures
            r.wf(),
            r@ =~= seq![Map::<usize, Sym>::empty()],
    {
        let mut tables: Vec<SymbolTable> = Vec::new();
        tables.push(SymbolTable::new());
        SymbolTables { tables }
    }

    /// Opens a new innermost scope.
    pub fn push_new(&mut self)
        requires
            old(self).wf(),
        ensures
            final(self).wf(),
            final(self)@ =~= old(self)@.push(Map::<usize, Sym>::empty()),
    {
        self.tables.push(SymbolTable::new());
    }

    /// Discards the innermost scope; refuses only on an empty stack.
    pub fn pop(&mut self) -> (r: bool)
        requires
            old(self).wf(),
        ensures
            final(self).wf(),
            r == (old(self)@.len() > 0),
            old(self)@.len() > 0 ==> final(self)@ =~= old(self)@.drop_last(),
            old(self)@.len() == 0 ==> final(self)@ == old(self)@,
    {
        let not_empty = self.tables.len() != 0;
        if not_empty {
            let _ = self.tables.pop();
        }
        not_empty
    }

    /// Number of scopes on the stack.
    pub fn depth(&self) -> (r: usize)
        ensures
            r == self@.len(),
    {
        self.tables.len()
    }

    /// Adds or overwrites a binding in the innermost scope.
    pub fn insert_sym(&mut self, symbol: Symbol)
        requires
            old(self).wf(),
            old(self)@.len() > 0,
            symbol_wf(symbol),
        ensures
            final(self).wf(),
            final(self)@ =~= s_insert(old(self)@, spec_sym_id(symbol), sym_of(symbol)),
    {
        let n = self.tables.len();
        let tab = &mut self.tables[n - 1];
        tab.insert(symbol);
    }

    /// Empties the innermost scope.
    pub fn clear_last(&mut self)
        requires
            old(self).wf(),
            old(self)@.len() > 0,
        ensures
            final(self).wf(),
            final(self)@ =~= old(self)@.update(
                old(self)@.len() - 1,
                Map::<usize, Sym>::empty(),
            ),
    {
        let n = self.tables.len();
        let tab = &mut self.tables[n - 1];
        tab.clear();
    }

    /// Index of the innermost scope binding `id`, if any.
    fn find_owner(&self, id: usize) -> (r: Option<usize>)
        ensures
            match r {
                Some(j) => j as int == s_owner(self@, id),
                None => s_owner(self@, id) == -1,
            },
    {
        proof {
            lemma_s_owner(self@, id);
        }
        let mut i: usize = self.tables.len();
        while i > 0
            invariant
                i <= self@.len(),
                forall|j: int| i <= j < self@.len() ==> !(#[trigger] self@[j]).contains_key(id),
            decreases i,
        {
            i = i - 1;
            if self.tables[i].symbols.get(&id).is_some() {
                proof {
                    assert(self.tables@[i as int].symbols@.contains_key(id));
                    assert(self@[i as int].contains_key(id));
                }
                return Some(i);
            }
            proof {
                assert(!self.tables@[i as int].symbols@.contains_key(id));
                assert(!self@[i as int].contains_key(id));
            }
        }
        None
    }

    /// Removes the owning binding for `id` from the chain, handing it out
    /// together with the scope index it came from.
    fn take_owner(&mut self, id: usize) -> (r: Option<(usize, Symbol)>)
        requires
            old(self).wf(),
        ensures
            final(self).wf(),
            final(self)@.len() == old(self)@.len(),
            match r {
                None => s_owner(old(self)@, id) == -1 && final(self)@ == old(self)@,
                Some((j, sym)) => {
                    &&& j as int == s_owner(old(self)@, id)
                    &&& j < old(self)@.len()
                    &&& old(self)@[j as int].contains_key(id)
                    &&& sym_of(sym) == old(self)@[j as int][id]
                    &&& symbol_wf(sym)
                    &&& spec_sym_id(sym) == id
                    &&& final(self)@ =~= old(self)@.update(
                        j as int,
                        old(self)@[j as int].remove(id),
                    )
                },
            },
    {
        proof {
            lemma_s_owner(self@, id);
        }
        match self.find_owner(id) {
            None => None,
            Some(j) => {
                let tab = &mut self.tables[j];
                proof {
                    assert(tab@ == old(self)@[j as int]);
                    assert(tab@.contains_key(id));
                }
                let sym = tab.take(id);
                match sym {
                    Some(sym) => {
                        proof {
                            assert(self.tables@ =~= old(self).tables@.update(
                                j as int,
                                self.tables@[j as int],
                            ));
                            assert(self@ =~= old(self)@.update(
                                j as int,
                                old(self)@[j as int].remove(id),
                            ));
                        }
                        Some((j, sym))
                    },
                    None => {
                        proof {
                            assert(false);
                        }
                        None
                    },
                }
            },
        }
    }

    /// Puts a binding into the scope at index `j`.
    fn put_at(&mut self, j: usize, symbol: Symbol)
        requires
            old(self).wf(),
            j < old(self)@.len(),
            symbol_wf(symbol),
        ensures
            final(self).wf(),
            final(self)@ =~= old(self)@.update(
                j as int,
                old(self)@[j as int].insert(spec_sym_id(symbol), sym_of(symbol)),
            ),
    {
        let tab = &mut self.tables[j];
        tab.insert(symbol);
        proof {
            assert(self.tables@ =~= old(self).tables@.update(j as int, self.tables@[j as int]));
            assert(self@ =~= old(self)@.update(
                j as int,
                old(self)@[j as int].insert(spec_sym_id(symbol), sym_of(symbol)),
            ));
        }
    }

    /// A copy of the binding `id` resolves to.
    pub fn symbol_clone(&self, id: usize) -> (r: Result<Symbol, Error>)
        requires
            self.wf(),
        ensures
            match s_lookup(self@, id) {
                Option::Some(sym) => match r {
                    Ok(s) => sym_of(s) == sym && symbol_wf(s) && spec_sym_id(s) == id,
                    Err(_) => false,
                },
                Option::None => r == Err::<Symbol, Error>(Error::SymbolNotFound),
            },
    {
        proof {
            lemma_s_owner(self@, id);
        }
        match self.find_owner(id) {
            None => Err(Error::SymbolNotFound),
            Some(j) => {
                let tab = &self.tables[j];
                proof {
                    assert(tab@ == self@[j as int]);
                }
                match tab.get_sym(id) {
                    Some(sym) => Ok(
                        match sym {
                            Symbol::Const(sid, v) => Symbol::Const(*sid, v.duplicate()),
                            Symbol::Var(sid, v) => Symbol::Var(*sid, v.duplicate()),
                            Symbol::Function(sid, p, b) => Symbol::Function(
                                *sid,
                                rc_dup(p),
                                rc_dup(b),
                            ),
                        },
                    ),
                    None => {
                        proof {
                            assert(false);
                        }
                        Err(Error::SymbolNotFound)
                    },
                }
            },
        }
    }

    /// A copy of the value bound at `id`; a function binding is no value.
    pub fn symbol_clone_value(&self, id: usize) -> (r: Result<CrValue, Error>)
        requires
            self.wf(),
        ensures
            match s_read(self@, id) {
                Ok(v) => match r {
                    Ok(c) => val_of(c) == v && value_wf(c),
                    Err(_) => false,
                },
                Err(e) => r == Err::<CrValue, Error>(e),
            },
    {
        proof {
            lemma_s_owner(self@, id);
        }
        match self.find_owner(id) {
            None => Err(Error::SymbolNotFound),
            Some(j) => {
                let tab = &self.tables[j];
                proof {
                    assert(tab@ == self@[j as int]);
                }
                match tab.get_sym(id) {
                    Some(sym) => match sym.get_value() {
                        Ok(v) => Ok(v.duplicate()),
                        Err(e) => Err(e),
                    },
                    None => {
                        proof {
                            assert(false);
                        }
                        Err(Error::SymbolNotFound)
                    },
                }
            },
        }
    }

    /// Element count of the list bound at `id`.
    pub fn symbol_crvalue_len(&self, id: usize) -> (r: Result<usize, Error>)
        requires
            self.wf(),
        ensures
            match s_list_len(self@, id) {
                Ok(n) => r == Ok::<usize, Error>(n as usize) && n <= usize::MAX,
                Err(e) => r == Err::<usize, Error>(e),
            },
    {
        proof {
            lemma_s_owner(self@, id);
        }
        match self.find_owner(id) {
            None => Err(Error::SymbolNotFound),
            Some(j) => {
                let tab = &self.tables[j];
                proof {
                    assert(tab@ == self@[j as int]);
                }
                match tab.get_sym(id) {
                    Some(sym) => match sym.get_value() {
                        Ok(v) => match v.as_list() {
                            Ok(l) => Ok(l.len()),
                            Err(e) => Err(e),
                        },
                        Err(e) => Err(e),
                    },
                    None => {
                        proof {
                            assert(false);
                        }
                        Err(Error::SymbolNotFound)
                    },
                }
            },
        }
    }

    /// A copy of one element of the list bound at `id`.
    pub fn symbol_crvalue_list_item(&self, id: usize, index: usize) -> (r: Result<CrValue, Error>)
        requires
            self.wf(),
        ensures
            match s_list_item(self@, id, index as int) {
                Ok(v) => match r {
                    Ok(c) => val_of(c) == v && value_wf(c),
                    Err(_) => false,
                },
                Err(e) => r == Err::<CrValue, Error>(e),
            },
    {
        proof {
            lemma_s_owner(self@, id);
        }
        match self.find_owner(id) {
            None => Err(Error::SymbolNotFound),
            Some(j) => {
                let tab = &self.tables[j];
                proof {
                    assert(tab@ == self@[j as int]);
                }
                match tab.get_sym(id) {
                    Some(sym) => match sym.get_value() {
                        Ok(v) => match v.as_list() {
                            Ok(l) => if index < l.len() {
                                Ok(l[index].duplicate())
                            } else {
                                Err(Error::IndexOutOfRange)
                            },
                            Err(e) => Err(e),
                        },
                        Err(e) => Err(e),
                    },
                    None => {
                        proof {
                            assert(false);
                        }
                        Err(Error::SymbolNotFound)
                    },
                }
            },
        }
    }

    /// Reassigns the binding `id` resolves to; constants and functions refuse.
    pub fn symbol_assign(&mut self, id: usize, value: CrValue) -> (r: Result<(), Error>)
        requires
            old(self).wf(),
            value_wf(value),
        ensures
            final(self).wf(),
            final(self)@.len() == old(self)@.len(),
            match s_assign(old(self)@, id, val_of(value)) {
                Ok(sc) => r is Ok && final(self)@ =~= sc,
                Err(e) => r == Err::<(), Error>(e) && final(self)@ =~= old(self)@,
            },
    {
        match self.take_owner(id) {
            None => {
                proof {
                    assert(s_assign(old(self)@, id, val_of(value)) == Err::<
                        Seq<Map<usize, Sym>>,
                        Error,
                    >(Error::SymbolNotFound));
                }
                Err(Error::SymbolNotFound)
            },
            Some((j, mut sym)) => {
                let res = sym.assign(value);
                let ghost mid = self@;
                self.put_at(j, sym);
                proof {
                    if res is Ok {
                        assert(old(self)@[j as int][id] is Var);
                        assert(s_assign(old(self)@, id, val_of(value)) is Ok);
                    } else {
                        assert(!(old(self)@[j as int][id] is Var));
                        assert(s_assign(old(self)@, id, val_of(value)) == Err::<
                            Seq<Map<usize, Sym>>,
                            Error,
                        >(Error::BadAssign));
                    }
                    assert(old(self)@[j as int].remove(id).insert(
                        id,
                        old(self)@[j as int][id],
                    ) =~= old(self)@[j as int]);
                    match res {
                        Ok(()) => {
                            assert(old(self)@[j as int].remove(id).insert(
                                id,
                                Sym::Var(val_of(value)),
                            ) =~= old(self)@[j as int].insert(id, Sym::Var(val_of(value))));
                            assert(final(self)@ =~= old(self)@.update(
                                j as int,
                                old(self)@[j as int].insert(id, Sym::Var(val_of(value))),
                            ));
                        },
                        Err(_) => {
                            assert(final(self)@ =~= old(self)@);
                        },
                    }
                }
                res
            },
        }
    }

    /// Takes the list bound at `id` out of the chain: scope index, constness
    /// and elements.  On failure the chain is unchanged.
    fn take_list(&mut self, id: usize) -> (r: Result<(usize, bool, Vec<CrValue>), Error>)
        requires
            old(self).wf(),
        ensures
            final(self).wf(),
            final(self)@.len() == old(self)@.len(),
            match r {
                Ok((j, c, items)) => {
                    &&& j as int == s_owner(old(self)@, id)
                    &&& j < old(self)@.len()
                    &&& old(self)@[j as int].contains_key(id)
                    &&& s_list_items(old(self)@, id) == Ok::<Seq<Val>, Error>(vals_of(items@))
                    &&& old(self)@[j as int][id] == list_sym(c, vals_of(items@))
                    &&& c == (old(self)@[j as int][id] is Const)
                    &&& forall|i: int| 0 <= i < items@.len() ==> value_wf(#[trigger] items@[i])
                    &&& final(self)@ =~= old(self)@.update(
                        j as int,
                        old(self)@[j as int].remove(id),
                    )
                },
                Err(e) => s_list_items(old(self)@, id) == Err::<Seq<Val>, Error>(e)
                    && final(self)@ =~= old(self)@,
            },
    {
        match self.take_owner(id) {
            None => Err(Error::SymbolNotFound),
            Some((j, sym)) => match sym {
                Symbol::Function(sid, p, b) => {
                    self.put_at(j, Symbol::Function(sid, p, b));
                    proof {
                        lemma_put_back_same(old(self)@, self@, j as int, id);
                    }
                    Err(Error::UseVoidValue)
                },
                Symbol::Const(sid, v) => match v {
                    CrValue::List(items) => Ok((j, true, items)),
                    other => {
                        self.put_at(j, Symbol::Const(sid, other));
                        proof {
                            lemma_put_back_same(old(self)@, self@, j as int, id);
                        }
                        Err(Error::UseVoidValue)
                    },
                },
                Symbol::Var(sid, v) => match v {
                    CrValue::List(items) => Ok((j, false, items)),
                    other => {
                        self.put_at(j, Symbol::Var(sid, other));
                        proof {
                            lemma_put_back_same(old(self)@, self@, j as int, id);
                        }
                        Err(Error::UseVoidValue)
                    },
                },
            },
        }
    }

    /// Puts a list binding (back) into the scope at index `j`.
    fn put_list_at(&mut self, j: usize, c: bool, id: usize, items: Vec<CrValue>)
        requires
            old(self).wf(),
            j < old(self)@.len(),
            forall|i: int| 0 <= i < items@.len() ==> value_wf(#[trigger] items@[i]),
        ensures
            final(self).wf(),
            final(self)@ =~= old(self)@.update(
                j as int,
                old(self)@[j as int].insert(id, list_sym(c, vals_of(items@))),
            ),
    {
        let symbol = if c {
            Symbol::Const(id, CrValue::List(items))
        } else {
            Symbol::Var(id, CrValue::List(items))
        };
        self.put_at(j, symbol);
    }

    /// Appends to the list bound at `id`, wherever in the chain it lives.
    pub fn symbol_list_append(&mut self, id: usize, value: CrValue) -> (r: Result<(), Error>)
        requires
            old(self).wf(),
            value_wf(value),
        ensures
            final(self).wf(),
            final(self)@.len() == old(self)@.len(),
            match s_list_append(old(self)@, id, val_of(value)) {
                Ok(sc) => r is Ok && final(self)@ =~= sc,
                Err(e) => r == Err::<(), Error>(e) && final(self)@ =~= old(self)@,
            },
    {
        match self.take_list(id) {
            Err(e) => Err(e),
            Ok((j, c, mut items)) => {
                let ghost items0 = vals_of(items@);
                items.push(value);
                proof {
                    assert(vals_of(items@) =~= items0.push(val_of(value)));
                }
                self.put_list_at(j, c, id, items);
                proof {
                    lemma_put_back_new(
                        old(self)@,
                        self@,
                        j as int,
                        id,
                        list_sym(c, items0.push(val_of(value))),
                    );
                    assert(self@ =~= s_with_items(old(self)@, id, items0.push(val_of(value))));
                }
                Ok(())
            },
        }
    }

    /// Inserts into the list bound at `id` at `index`, shifting the rest.
    pub fn symbol_list_insert(&mut self, id: usize, index: usize, value: CrValue) -> (r: Result<
        (),
        Error,
    >)
        requires
            old(self).wf(),
            value_wf(value),
        ensures
            final(self).wf(),
            final(self)@.len() == old(self)@.len(),
            match s_list_insert(old(self)@, id, index as int, val_of(value)) {
                Ok(sc) => r is Ok && final(self)@ =~= sc,
                Err(e) => r == Err::<(), Error>(e) && final(self)@ =~= old(self)@,
            },
    {
        match self.take_list(id) {
            Err(e) => Err(e),
            Ok((j, c, mut items)) => {
                let ghost items0 = vals_of(items@);
                if index > items.len() {
                    self.put_list_at(j, c, id, items);
                    proof {
                        lemma_put_back_new(old(self)@, self@, j as int, id, list_sym(c, items0));
                        assert(old(self)@[j as int].insert(id, list_sym(c, items0))
                            =~= old(self)@[j as int]);
                        assert(self@ =~= old(self)@);
                    }
                    Err(Error::IndexOutOfRange)
                } else {
                    items.insert(index, value);
                    proof {
                        assert(vals_of(items@) =~= items0.insert(index as int, val_of(value)));
                    }
                    self.put_list_at(j, c, id, items);
                    proof {
                        lemma_put_back_new(
                            old(self)@,
                            self@,
                            j as int,
                            id,
                            list_sym(c, items0.insert(index as int, val_of(value))),
                        );
                        assert(self@ =~= s_with_items(
                            old(self)@,
                            id,
                            items0.insert(index as int, val_of(value)),
                        ));
                    }
                    Ok(())
                }
            },
        }
    }

    /// Overwrites one element of the list bound at `id`.
    pub fn symbol_list_modify(&mut self, id: usize, index: usize, value: CrValue) -> (r: Result<
        (),
        Error,
    >)
        requires
            old(self).wf(),
            value_wf(value),
        ensures
            final(self).wf(),
            final(self)@.len() == old(self)@.len(),
            match s_list_modify(old(self)@, id, index as int, val_of(value)) {
                Ok(sc) => r is Ok && final(self)@ =~= sc,
                Err(e) => r == Err::<(), Error>(e) && final(self)@ =~= old(self)@,
            },
    {
        match self.take_list(id) {
            Err(e) => Err(e),
            Ok((j, c, mut items)) => {
                let ghost items0 = vals_of(items@);
                if index >= items.len() {
                    self.put_list_at(j, c, id, items);
                    proof {
                        lemma_put_back_new(old(self)@, self@, j as int, id, list_sym(c, items0));
                        assert(old(self)@[j as int].insert(id, list_sym(c, items0))
                            =~= old(self)@[j as int]);
                        assert(self@ =~= old(self)@);
                    }
                    Err(Error::IndexOutOfRange)
                } else {
                    items[index] = value;
                    proof {
                        assert(vals_of(items@) =~= items0.update(index as int, val_of(value)));
                    }
                    self.put_list_at(j, c, id, items);
                    proof {
                        lemma_put_back_new(
                            old(self)@,
                            self@,
                            j as int,
                            id,
                            list_sym(c, items0.update(index as int, val_of(value))),
                        );
                        assert(self@ =~= s_with_items(
                            old(self)@,
                            id,
                            items0.update(index as int, val_of(value)),
                        ));
                    }
                    Ok(())
                }
            },
        }
    }

    /// Removes and returns one element of the list bound at `id`.
    pub fn symbol_list_remove(&mut self, id: usize, index: usize) -> (r: Result<CrValue, Error>)
        requires
            old(self).wf(),
        ensures
            final(self).wf(),
            final(self)@.len() == old(self)@.len(),
            match s_list_remove(old(self)@, id, index as int) {
                Ok(scv) => match r {
                    Ok(c) => val_of(c) == scv.1 && value_wf(c) && final(self)@ =~= scv.0,
                    Err(_) => false,
                },
                Err(e) => r == Err::<CrValue, Error>(e) && final(self)@ =~= old(self)@,
            },
    {
        match self.take_list(id) {
            Err(e) => Err(e),
            Ok((j, c, mut items)) => {
                let ghost items0 = vals_of(items@);
                if index >= items.len() {
                    self.put_list_at(j, c, id, items);
                    proof {
                        lemma_put_back_new(old(self)@, self@, j as int, id, list_sym(c, items0));
                        assert(old(self)@[j as int].insert(id, list_sym(c, items0))
                            =~= old(self)@[j as int]);
                        assert(self@ =~= old(self)@);
                    }
                    Err(Error::IndexOutOfRange)
                } else {
                    let removed = items.remove(index);
                    proof {
                        assert(vals_of(items@) =~= items0.remove(index as int));
                        assert(val_of(removed) == items0[index as int]);
                    }
                    self.put_list_at(j, c, id, items);
                    proof {
                        lemma_put_back_new(
                            old(self)@,
                            self@,
                            j as int,
                            id,
                            list_sym(c, items0.remove(index as int)),
                        );
                        assert(self@ =~= s_with_items(
                            old(self)@,
                            id,
                            items0.remove(index as int),
                        ));
                    }
                    Ok(removed)
                }
            },
        }
    }
}

} // verus!
