//! Runtime values and their mathematical model.
//!
//! A [`CrValue`] is an arbitrary-precision integer, a list, or the void
//! sentinel that statements produce.  Its spec-level counterpart [`Val`]
//! replaces the integer by a plain `int` and the vector by a sequence, so
//! that every contract of the evaluator speaks of mathematical values only.

#![verifier::loop_isolation(false)]

use vstd::prelude::*;

use crate::bigint::{dec_rep, BigInt};
use super::result::Error;

verus! {

/// The mathematical model of a runtime value.
pub ghost enum Val {
    Int(int),
    List(Seq<Val>),
    Void,
}

/// A runtime value.
#[derive(Debug)]
pub enum CrValue {
    Number(BigInt),
    List(Vec<CrValue>),
    Void,
}

/// The model of a value.
pub open spec fn val_of(v: CrValue) -> Val
    decreases v,
{
    match v {
        CrValue::Number(b) => Val::Int(b@),
        CrValue::List(vs) => Val::List(vals_of(vs@)),
        CrValue::Void => Val::Void,
    }
}

/// The models of a sequence of values, element by element.
pub open spec fn vals_of(vs: Seq<CrValue>) -> Seq<Val>
    decreases vs,
{
    Seq::new(
        vs.len(),
        |i: int|
            if 0 <= i < vs.len() {
                val_of(vs[i])
            } else {
                Val::Void
            },
    )
}

/// Every integer inside the value is in canonical form.
pub open spec fn value_wf(v: CrValue) -> bool
    decreases v,
{
    match v {
        CrValue::Number(b) => b.wf(),
        CrValue::List(vs) => forall|i: int| 0 <= i < vs@.len() ==> value_wf(#[trigger] vs@[i]),
        CrValue::Void => true,
    }
}

/// Text a value prints as: decimal digits for an integer, `void` for the
/// void sentinel, and `[` item `,` ... `]` for a list.
pub open spec fn render_val(v: Val) -> Seq<char>
    decreases v,
{
    match v {
        Val::Int(i) => dec_rep(i),
        Val::Void => seq!['v', 'o', 'i', 'd'],
        Val::List(items) => seq!['['].add(render_items(items)).push(']'),
    }
}

/// Each item's text followed by a comma.
pub open spec fn render_items(items: Seq<Val>) -> Seq<char>
    decreases items,
{
    if items.len() == 0 {
        Seq::empty()
    } else {
        render_items(items.drop_last()).add(render_val(items.last())).push(',')
    }
}

impl CrValue {
    /// The integer inside, or [`Error::UseVoidValue`] for a list, void or
    /// function-shaped value.
    pub fn as_int(&self) -> (r: Result<&BigInt, Error>)
        ensures
            match r {
                Ok(b) => *self == CrValue::Number(*b),
                Err(e) => e == Error::UseVoidValue && !(self is Number),
            },
    {
        match self {
            CrValue::Number(num) => Ok(num),
            _ => Err(Error::UseVoidValue),
        }
    }

    /// The list inside, or [`Error::UseVoidValue`] otherwise.
    pub fn as_list(&self) -> (r: Result<&Vec<CrValue>, Error>)
        ensures
            match r {
                Ok(l) => *self == CrValue::List(*l),
                Err(e) => e == Error::UseVoidValue && !(self is List),
            },
    {
        match self {
            CrValue::List(list) => Ok(list),
            _ => Err(Error::UseVoidValue),
        }
    }

    /// A copy with the same model.
    pub fn duplicate(&self) -> (r: CrValue)
        ensures
            val_of(r) == val_of(*self),
            value_wf(*self) ==> value_wf(r),
        decreases *self,
    {
        match self {
            CrValue::Number(b) => CrValue::Number(b.duplicate()),
            CrValue::Void => CrValue::Void,
            CrValue::List(vs) => {
                let mut out: Vec<CrValue> = Vec::new();
                let mut i: usize = 0;
                while i < vs.len()
                    invariant
                        i <= vs@.len(),
                        out@.len() == i,
                        forall|j: int|
                            0 <= j < i ==> val_of(#[trigger] out@[j]) == val_of(vs@[j]),
                        forall|j: int|
                            0 <= j < i ==> (value_wf(vs@[j]) ==> value_wf(#[trigger] out@[j])),
                    decreases vs@.len() - i,
                {
                    proof {
                        assert(decreases_to!(*self => self->List_0));
                        assert(decreases_to!(self->List_0@ => self->List_0@[i as int]));
                    }
                    let c = vs[i].duplicate();
                    out.push(c);
                    i = i + 1;
                }
                proof {
                    assert(vals_of(out@) =~= vals_of(vs@));
                }
                CrValue::List(out)
            },
        }
    }

    /// Appends the value's text to `out`.
    pub fn render(&self, out: &mut Vec<char>)
        ensures
            final(out)@ == old(out)@.add(render_val(val_of(*self))),
        decreases *self,
    {
        match self {
            CrValue::Number(b) => {
                let mut digits = b.to_dec_chars();
                out.append(&mut digits);
            },
            CrValue::Void => {
                out.push('v');
                out.push('o');
                out.push('i');
                out.push('d');
                proof {
                    assert(out@ =~= old(out)@.add(render_val(val_of(*self))));
                }
            },
            CrValue::List(vs) => {
                out.push('[');
                let ghost base = out@;
                let mut i: usize = 0;
                while i < vs.len()
                    invariant
                        i <= vs@.len(),
                        out@ == base.add(render_items(vals_of(vs@.subrange(0, i as int)))),
                    decreases vs@.len() - i,
                {
                    proof {
                        assert(decreases_to!(*self => self->List_0));
                        assert(decreases_to!(self->List_0@ => self->List_0@[i as int]));
                    }
                    vs[i].render(out);
                    out.push(',');
                    proof {
                        let pre = vals_of(vs@.subrange(0, i as int));
                        let post = vals_of(vs@.subrange(0, i as int + 1));
                        assert(post.drop_last() =~= pre);
                        assert(post.last() == val_of(vs@[i as int]));
                        assert(render_items(post) == render_items(pre).add(
                            render_val(val_of(vs@[i as int])),
                        ).push(','));
                        assert(out@ =~= base.add(render_items(post)));
                    }
                    i = i + 1;
                }
                out.push(']');
                proof {
                    assert(vs@.subrange(0, vs@.len() as int) =~= vs@);
                    assert(out@ =~= old(out)@.add(render_val(val_of(*self))));
                }
            },
        }
    }
}

} // verus!
