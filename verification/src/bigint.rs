//! Arbitrary-precision signed integers.
//!
//! A [`BigInt`] keeps a sign flag and a little-endian byte magnitude in
//! canonical form (no trailing zero byte, and the zero value is never
//! negative), so that its mathematical value — the spec-level view — is the
//! plain `int` computed by [`le_val`].  All arithmetic is carried out by the
//! `dashu_int` crate behind small trusted wrappers whose contracts state the
//! exact integer result.

use vstd::prelude::*;

verus! {

/// Value of a little-endian byte string: `s[0] + 256*s[1] + 256^2*s[2] + ...`.
pub open spec fn le_val(s: Seq<u8>) -> int
    decreases s.len(),
{
    if s.len() == 0 {
        0
    } else {
        s[0] + 256 * le_val(s.drop_first())
    }
}

/// `256^k`.
pub open spec fn pow256(k: nat) -> int
    decreases k,
{
    if k == 0 {
        1
    } else {
        256 * pow256((k - 1) as nat)
    }
}

/// `2^k`.
pub open spec fn pow2(k: nat) -> int
    decreases k,
{
    if k == 0 {
        1
    } else {
        2 * pow2((k - 1) as nat)
    }
}

/// Integer division truncating toward zero (the semantics of `/` on the
/// underlying arbitrary-precision integers).
pub open spec fn trunc_div(a: int, b: int) -> int {
    if a >= 0 {
        if b >= 0 {
            a / b
        } else {
            -(a / -b)
        }
    } else {
        if b >= 0 {
            -(-a / b)
        } else {
            -a / -b
        }
    }
}

/// Remainder matching [`trunc_div`]; it has the sign of the dividend.
pub open spec fn trunc_rem(a: int, b: int) -> int {
    a - b * trunc_div(a, b)
}

/// The character for a single decimal digit.
pub open spec fn digit_char(d: int) -> char {
    if d == 0 {
        '0'
    } else if d == 1 {
        '1'
    } else if d == 2 {
        '2'
    } else if d == 3 {
        '3'
    } else if d == 4 {
        '4'
    } else if d == 5 {
        '5'
    } else if d == 6 {
        '6'
    } else if d == 7 {
        '7'
    } else if d == 8 {
        '8'
    } else {
        '9'
    }
}

/// Decimal digits of a non-negative integer, most significant first.
pub open spec fn dec_digits(n: nat) -> Seq<char>
    decreases n,
{
    if n < 10 {
        seq![digit_char(n as int)]
    } else {
        dec_digits(n / 10).push(digit_char((n % 10) as int))
    }
}

/// Decimal rendering of an integer: a `-` sign followed by the digits of the
/// absolute value, or just the digits when the integer is non-negative.
pub open spec fn dec_rep(i: int) -> Seq<char> {
    if i < 0 {
        seq!['-'].add(dec_digits((-i) as nat))
    } else {
        dec_digits(i as nat)
    }
}

/// An arbitrary-precision signed integer: sign and little-endian magnitude.
#[derive(Debug, PartialEq, Eq)]
pub struct BigInt {
    neg: bool,
    mag: Vec<u8>,
}

impl View for BigInt {
    type V = int;

    closed spec fn view(&self) -> int {
        if self.neg {
            -le_val(self.mag@)
        } else {
            le_val(self.mag@)
        }
    }
}

pub proof fn lemma_le_val_nonneg(s: Seq<u8>)
    ensures
        le_val(s) >= 0,
    decreases s.len(),
{
    if s.len() > 0 {
        lemma_le_val_nonneg(s.drop_first());
    }
}

pub proof fn lemma_le_val_canonical_pos(s: Seq<u8>)
    requires
        s.len() > 0,
        s.last() != 0,
    ensures
        le_val(s) > 0,
    decreases s.len(),
{
    if s.len() == 1 {
        assert(le_val(s) == s[0] + 256 * le_val(s.drop_first()));
    } else {
        assert(s.drop_first().last() == s.last());
        lemma_le_val_canonical_pos(s.drop_first());
        lemma_le_val_nonneg(s);
    }
}

pub proof fn lemma_le_val_push(s: Seq<u8>, b: u8)
    ensures
        le_val(s.push(b)) == le_val(s) + b * pow256(s.len()),
    decreases s.len(),
{
    if s.len() == 0 {
        assert(s.push(b).drop_first() =~= Seq::<u8>::empty());
        assert(le_val(s.push(b)) == b + 256 * le_val(Seq::<u8>::empty()));
    } else {
        let t = s.push(b);
        assert(t.drop_first() =~= s.drop_first().push(b));
        lemma_le_val_push(s.drop_first(), b);
        assert(t[0] == s[0]);
        assert(pow256(s.len()) == 256 * pow256((s.len() - 1) as nat));
        assert(256 * (le_val(s.drop_first()) + b * pow256((s.len() - 1) as nat)) == 256 * le_val(
        s.drop_first()) + b * (256 * pow256((s.len() - 1) as nat))) by (nonlinear_arith);
    }
}


impl BigInt {
    /// Canonical form: no trailing zero byte, and zero is non-negative.
    pub closed spec fn wf(&self) -> bool {
        &&& (self.mag@.len() > 0 ==> self.mag@.last() != 0)
        &&& (self.neg ==> self.mag@.len() > 0)
    }

    /// The zero value.
    pub fn zero() -> (r: BigInt)
        ensures
            r.wf(),
            r@ == 0,
    {
        BigInt { neg: false, mag: Vec::new() }
    }

    /// Builds the integer with a given `u64` value.
    pub fn from_u64(n: u64) -> (r: BigInt)
        ensures
            r.wf(),
            r@ == n as int,
    {
        let mut mag: Vec<u8> = Vec::new();
        let mut m: u64 = n;
        while m > 0
            invariant
                le_val(mag@) + (m as int) * pow256(mag@.len() as nat) == n as int,
                mag@.len() > 0 ==> (mag@.last() != 0 || m > 0),
            decreases m,
        {
            let b: u8 = (m % 256) as u8;
            proof {
                lemma_le_val_push(mag@, b);
                assert((m as int) * pow256(mag@.len() as nat) == b * pow256(mag@.len() as nat) + (
                m as int / 256) * pow256((mag@.len() + 1) as nat)) by (nonlinear_arith)
                    requires
                        b == m as int % 256,
                        pow256((mag@.len() + 1) as nat) == 256 * pow256(mag@.len() as nat),
                ;
            }
            mag.push(b);
            m = m / 256;
        }
        proof {
            lemma_le_val_nonneg(mag@);
        }
        BigInt { neg: false, mag }
    }

    /// Whether the value is zero.
    pub fn is_zero(&self) -> (r: bool)
        requires
            self.wf(),
        ensures
            r == (self@ == 0),
    {
        proof {
            if self.mag@.len() > 0 {
                lemma_le_val_canonical_pos(self.mag@);
            }
        }
        self.mag.len() == 0
    }

    /// Whether the value is strictly positive — the language's truth test.
    pub fn is_positive(&self) -> (r: bool)
        requires
            self.wf(),
        ensures
            r == (self@ > 0),
    {
        proof {
            if self.mag@.len() > 0 {
                lemma_le_val_canonical_pos(self.mag@);
            }
        }
        !self.neg && self.mag.len() > 0
    }

    /// The arithmetic negation.
    pub fn negated(&self) -> (r: BigInt)
        requires
            self.wf(),
        ensures
            r.wf(),
            r@ == -self@,
    {
        let mut mag: Vec<u8> = Vec::new();
        let mut i: usize = 0;
        while i < self.mag.len()
            invariant
                i <= self.mag@.len(),
                mag@ =~= self.mag@.subrange(0, i as int),
            decreases self.mag@.len() - i,
        {
            mag.push(self.mag[i]);
            i = i + 1;
        }
        assert(mag@ =~= self.mag@);
        BigInt { neg: !self.neg && self.mag.len() > 0, mag }
    }

    /// An identical copy.
    pub fn duplicate(&self) -> (r: BigInt)
        ensures
            r@ == self@,
            self.wf() ==> r.wf(),
    {
        let mut mag: Vec<u8> = Vec::new();
        let mut i: usize = 0;
        while i < self.mag.len()
            invariant
                i <= self.mag@.len(),
                mag@ =~= self.mag@.subrange(0, i as int),
            decreases self.mag@.len() - i,
        {
            mag.push(self.mag[i]);
            i = i + 1;
        }
        assert(mag@ =~= self.mag@);
        BigInt { neg: self.neg, mag }
    }

    /// Relies on `dashu_int`'s `Add for IBig`: the sum of the two values.
    #[verifier::external_body]
    pub fn plus(&self, other: &BigInt) -> (r: BigInt)
        ensures
            r.wf(),
            r@ == self@ + other@,
    {
        let sa = if self.neg { dashu_int::Sign::Negative } else { dashu_int::Sign::Positive };
        let sb = if other.neg { dashu_int::Sign::Negative } else { dashu_int::Sign::Positive };
        let a = dashu_int::IBig::from_parts(sa, dashu_int::UBig::from_le_bytes(&self.mag));
        let b = dashu_int::IBig::from_parts(sb, dashu_int::UBig::from_le_bytes(&other.mag));
        let (s, m) = (a + b).into_parts();
        BigInt { neg: s == dashu_int::Sign::Negative, mag: m.to_le_bytes().into_vec() }
    }

    /// Relies on `dashu_int`'s `Sub for IBig`: the difference of the two values.
    #[verifier::external_body]
    pub fn minus(&self, other: &BigInt) -> (r: BigInt)
        ensures
            r.wf(),
            r@ == self@ - other@,
    {
        let sa = if self.neg { dashu_int::Sign::Negative } else { dashu_int::Sign::Positive };
        let sb = if other.neg { dashu_int::Sign::Negative } else { dashu_int::Sign::Positive };
        let a = dashu_int::IBig::from_parts(sa, dashu_int::UBig::from_le_bytes(&self.mag));
        let b = dashu_int::IBig::from_parts(sb, dashu_int::UBig::from_le_bytes(&other.mag));
        let (s, m) = (a - b).into_parts();
        BigInt { neg: s == dashu_int::Sign::Negative, mag: m.to_le_bytes().into_vec() }
    }

    /// Relies on `dashu_int`'s `Mul for IBig`: the product of the two values.
    #[verifier::external_body]
    pub fn times(&self, other: &BigInt) -> (r: BigInt)
        ensures
            r.wf(),
            r@ == self@ * other@,
    {
        let sa = if self.neg { dashu_int::Sign::Negative } else { dashu_int::Sign::Positive };
        let sb = if other.neg { dashu_int::Sign::Negative } else { dashu_int::Sign::Positive };
        let a = dashu_int::IBig::from_parts(sa, dashu_int::UBig::from_le_bytes(&self.mag));
        let b = dashu_int::IBig::from_parts(sb, dashu_int::UBig::from_le_bytes(&other.mag));
        let (s, m) = (a * b).into_parts();
        BigInt { neg: s == dashu_int::Sign::Negative, mag: m.to_le_bytes().into_vec() }
    }

    /// Relies on `dashu_int`'s `Div for IBig`, which truncates toward zero and
    /// panics on a zero divisor.
    #[verifier::external_body]
    pub fn div_trunc(&self, other: &BigInt) -> (r: BigInt)
        requires
            other@ != 0,
        ensures
            r.wf(),
            r@ == trunc_div(self@, other@),
    {
        let sa = if self.neg { dashu_int::Sign::Negative } else { dashu_int::Sign::Positive };
        let sb = if other.neg { dashu_int::Sign::Negative } else { dashu_int::Sign::Positive };
        let a = dashu_int::IBig::from_parts(sa, dashu_int::UBig::from_le_bytes(&self.mag));
        let b = dashu_int::IBig::from_parts(sb, dashu_int::UBig::from_le_bytes(&other.mag));
        let (s, m) = (a / b).into_parts();
        BigInt { neg: s == dashu_int::Sign::Negative, mag: m.to_le_bytes().into_vec() }
    }

    /// Relies on `dashu_int`'s `Rem for IBig`, whose result has the sign of the
    /// dividend and which panics on a zero divisor.
    #[verifier::external_body]
    pub fn rem_trunc(&self, other: &BigInt) -> (r: BigInt)
        requires
            other@ != 0,
        ensures
            r.wf(),
            r@ == trunc_rem(self@, other@),
    {
        let sa = if self.neg { dashu_int::Sign::Negative } else { dashu_int::Sign::Positive };
        let sb = if other.neg { dashu_int::Sign::Negative } else { dashu_int::Sign::Positive };
        let a = dashu_int::IBig::from_parts(sa, dashu_int::UBig::from_le_bytes(&self.mag));
        let b = dashu_int::IBig::from_parts(sb, dashu_int::UBig::from_le_bytes(&other.mag));
        let (s, m) = (a % b).into_parts();
        BigInt { neg: s == dashu_int::Sign::Negative, mag: m.to_le_bytes().into_vec() }
    }

    /// Relies on `dashu_int`'s `Shl<usize> for IBig`: multiplication by `2^k`.
    #[verifier::external_body]
    pub fn shl_by(&self, k: usize) -> (r: BigInt)
        ensures
            r.wf(),
            r@ == self@ * pow2(k as nat),
    {
        let sa = if self.neg { dashu_int::Sign::Negative } else { dashu_int::Sign::Positive };
        let a = dashu_int::IBig::from_parts(sa, dashu_int::UBig::from_le_bytes(&self.mag));
        let (s, m) = (a << k).into_parts();
        BigInt { neg: s == dashu_int::Sign::Negative, mag: m.to_le_bytes().into_vec() }
    }

    /// Relies on `dashu_int`'s `Shr<usize> for IBig`, an arithmetic shift:
    /// division by `2^k` rounding toward minus infinity.
    #[verifier::external_body]
    pub fn shr_by(&self, k: usize) -> (r: BigInt)
        ensures
            r.wf(),
            r@ == self@ / pow2(k as nat),
    {
        let sa = if self.neg { dashu_int::Sign::Negative } else { dashu_int::Sign::Positive };
        let a = dashu_int::IBig::from_parts(sa, dashu_int::UBig::from_le_bytes(&self.mag));
        let (s, m) = (a >> k).into_parts();
        BigInt { neg: s == dashu_int::Sign::Negative, mag: m.to_le_bytes().into_vec() }
    }

    /// Relies on `dashu_int`'s `Ord for IBig`, which orders by value:
    /// returns -1, 0 or 1 as `self` is below, at or above `other`.
    #[verifier::external_body]
    pub fn cmp_with(&self, other: &BigInt) -> (r: i8)
        ensures
            (r == -1i8 <==> self@ < other@),
            (r == 0i8 <==> self@ == other@),
            (r == 1i8 <==> self@ > other@),
    {
        let sa = if self.neg { dashu_int::Sign::Negative } else { dashu_int::Sign::Positive };
        let sb = if other.neg { dashu_int::Sign::Negative } else { dashu_int::Sign::Positive };
        let a = dashu_int::IBig::from_parts(sa, dashu_int::UBig::from_le_bytes(&self.mag));
        let b = dashu_int::IBig::from_parts(sb, dashu_int::UBig::from_le_bytes(&other.mag));
        match a.cmp(&b) {
            core::cmp::Ordering::Less => -1,
            core::cmp::Ordering::Equal => 0,
            core::cmp::Ordering::Greater => 1,
        }
    }

    /// Relies on `dashu_int`'s `TryFrom<IBig> for usize`, which succeeds
    /// exactly when the value fits.
    #[verifier::external_body]
    pub fn to_usize(&self) -> (r: Option<usize>)
        ensures
            match r {
                Some(u) => self@ == u as int,
                None => self@ < 0 || self@ > usize::MAX as int,
            },
    {
        let sa = if self.neg { dashu_int::Sign::Negative } else { dashu_int::Sign::Positive };
        let a = dashu_int::IBig::from_parts(sa, dashu_int::UBig::from_le_bytes(&self.mag));
        usize::try_from(a).ok()
    }

    /// Relies on `dashu_int`'s `Display for IBig`: plain decimal digits with a
    /// leading `-` for negative values.
    #[verifier::external_body]
    pub fn to_dec_chars(&self) -> (r: Vec<char>)
        ensures
            r@ == dec_rep(self@),
    {
        let sa = if self.neg { dashu_int::Sign::Negative } else { dashu_int::Sign::Positive };
        let a = dashu_int::IBig::from_parts(sa, dashu_int::UBig::from_le_bytes(&self.mag));
        format!("{}", a).chars().collect()
    }
}

} // verus!
