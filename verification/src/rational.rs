//! Exact rational arithmetic.
//!
//! Market amounts, prices and liquidity parameters are exact rationals: a
//! 64-bit signed numerator over a 64-bit positive denominator.  The ghost
//! model [`Rat`] is the same pair over unbounded integers, so every
//! contract speaks of exact rational values and the domain invariants
//! (odds summing to one, a product of reserves preserved by a trade) are
//! theorems rather than tolerances.
//!
//! Executable arithmetic is checked: an operation whose exact result does
//! not fit the 64-bit pair returns `None` instead of rounding.  Results
//! are returned unreduced, so each `ensures` can state the exact pair the
//! operation produces.

use vstd::prelude::*;

verus! {

/// Ghost rational number: `num / den` with `den >= 1` (see [`Rat::wf`]).
pub struct Rat {
    pub num: int,
    pub den: int,
}

impl Rat {
    /// A meaningful rational keeps its denominator positive.
    pub open spec fn wf(self) -> bool {
        self.den >= 1
    }
}

/// The rational `i / 1`.
pub open spec fn rat_int(i: int) -> Rat {
    Rat { num: i, den: 1 }
}

/// The rational zero.
pub open spec fn rat_zero() -> Rat {
    rat_int(0)
}

/// The rational one.
pub open spec fn rat_one() -> Rat {
    rat_int(1)
}

/// Equality of rational values, by cross multiplication.
pub open spec fn rat_eq(a: Rat, b: Rat) -> bool {
    a.num * b.den == b.num * a.den
}

/// `a <= b` as rational values, by cross multiplication.
pub open spec fn rat_le(a: Rat, b: Rat) -> bool {
    a.num * b.den <= b.num * a.den
}

/// `a < b` as rational values, by cross multiplication.
pub open spec fn rat_lt(a: Rat, b: Rat) -> bool {
    a.num * b.den < b.num * a.den
}

/// Exact sum: `a/b + c/d = (a*d + c*b) / (b*d)`.
pub open spec fn rat_add(a: Rat, b: Rat) -> Rat {
    Rat { num: a.num * b.den + b.num * a.den, den: a.den * b.den }
}

/// Exact difference: `a/b - c/d = (a*d - c*b) / (b*d)`.
pub open spec fn rat_sub(a: Rat, b: Rat) -> Rat {
    Rat { num: a.num * b.den - b.num * a.den, den: a.den * b.den }
}

/// Exact product.
pub open spec fn rat_mul(a: Rat, b: Rat) -> Rat {
    Rat { num: a.num * b.num, den: a.den * b.den }
}

/// Exact quotient; the sign moves to the numerator so the denominator
/// stays positive.  Meaningful only for `b.num != 0`.
pub open spec fn rat_div(a: Rat, b: Rat) -> Rat {
    if b.num >= 0 {
        Rat { num: a.num * b.den, den: a.den * b.num }
    } else {
        Rat { num: -(a.num * b.den), den: -(a.den * b.num) }
    }
}

/// Absolute value.
pub open spec fn rat_abs(a: Rat) -> Rat {
    if a.num >= 0 {
        a
    } else {
        Rat { num: -a.num, den: a.den }
    }
}

/// Whether an exact rational fits the executable 64-bit pair.
pub open spec fn rat_fits(a: Rat) -> bool {
    &&& i64::MIN <= a.num <= i64::MAX
    &&& 1 <= a.den <= u64::MAX
}

/// Executable rational number; `view` gives the ghost pair.
#[derive(Clone, Copy, Debug, PartialEq, Eq, Structural, Hash)]
pub struct Ratio {
    pub num: i64,
    pub den: u64,
}

impl View for Ratio {
    type V = Rat;

    open spec fn view(&self) -> Rat {
        Rat { num: self.num as int, den: self.den as int }
    }
}

/// A sequence of executable rationals as a sequence of ghost pairs.
pub open spec fn views(s: Seq<Ratio>) -> Seq<Rat> {
    s.map_values(|r: Ratio| r@)
}

/// All elements of a sequence are well-formed rationals.
pub open spec fn all_wf(s: Seq<Ratio>) -> bool {
    forall|i: int| 0 <= i < s.len() ==> #[trigger] s[i].wf()
}

/// A product of a signed factor of at most 64 magnitude bits and an
/// unsigned 64-bit factor stays inside `i128`.
proof fn lemma_mixed_product_in_i128(x: int, y: int)
    by (nonlinear_arith)
    requires
        -0x8000000000000000 <= x <= 0x8000000000000000,
        0 <= y <= 0xffffffffffffffff,
    ensures
        -0x7fffffffffffffffffffffffffffffff <= x * y <= 0x7fffffffffffffffffffffffffffffff,
{
}

/// Any `i64 * i64` product stays inside `i128`.
proof fn lemma_signed_product_in_i128(x: int, y: int)
    by (nonlinear_arith)
    requires
        -0x8000000000000000 <= x <= 0x7fffffffffffffff,
        -0x8000000000000000 <= y <= 0x7fffffffffffffff,
    ensures
        -0x7fffffffffffffffffffffffffffffff <= x * y <= 0x7fffffffffffffffffffffffffffffff,
{
}

/// Any `u64 * u64` product stays inside `u128`.
proof fn lemma_unsigned_product_in_u128(x: int, y: int)
    by (nonlinear_arith)
    requires
        0 <= x <= 0xffffffffffffffff,
        0 <= y <= 0xffffffffffffffff,
    ensures
        0 <= x * y <= 0xffffffffffffffffffffffffffffffff,
{
}

/// A product of two positive integers is positive.
pub proof fn lemma_pos_product(x: int, y: int)
    by (nonlinear_arith)
    requires
        x >= 1,
        y >= 1,
    ensures
        x * y >= 1,
{
}

impl Ratio {
    /// The executable pair always carries a positive denominator.
    pub open spec fn wf(&self) -> bool {
        self@.wf()
    }

    /// The integer `n`, as a rational.
    pub fn from_int(n: i64) -> (r: Ratio)
        ensures
            r.wf(),
            r@ == rat_int(n as int),
    {
        Ratio { num: n, den: 1 }
    }

    /// The rational `num / den`; rejects a zero denominator.
    pub fn new(num: i64, den: u64) -> (r: Option<Ratio>)
        ensures
            match r {
                Some(q) => {
                    &&& q.wf()
                    &&& q@ == (Rat { num: num as int, den: den as int })
                    &&& den >= 1
                },
                None => den == 0,
            },
    {
        if den == 0 {
            None
        } else {
            Some(Ratio { num, den })
        }
    }

    /// Numerator of the unreduced pair.
    pub fn numerator(&self) -> (r: i64)
        ensures
            r as int == self@.num,
    {
        self.num
    }

    /// Denominator of the unreduced pair.
    pub fn denominator(&self) -> (r: u64)
        ensures
            r as int == self@.den,
    {
        self.den
    }

    /// Whether the value is strictly below zero.
    pub fn is_negative(&self) -> (r: bool)
        ensures
            r == (self@.num < 0),
    {
        self.num < 0
    }

    /// Whether the value is exactly zero.
    pub fn is_zero(&self) -> (r: bool)
        ensures
            r == (self@.num == 0),
    {
        self.num == 0
    }

    /// Exact rational equality (not pair equality).
    pub fn eq_value(&self, rhs: &Ratio) -> (r: bool)
        requires
            self.wf(),
            rhs.wf(),
        ensures
            r == rat_eq(self@, rhs@),
    {
        proof {
            lemma_mixed_product_in_i128(self@.num, rhs@.den);
            lemma_mixed_product_in_i128(rhs@.num, self@.den);
        }
        let p1: i128 = (self.num as i128) * (rhs.den as i128);
        let p2: i128 = (rhs.num as i128) * (self.den as i128);
        p1 == p2
    }

    /// Exact `self <= rhs`.
    pub fn le(&self, rhs: &Ratio) -> (r: bool)
        requires
            self.wf(),
            rhs.wf(),
        ensures
            r == rat_le(self@, rhs@),
    {
        proof {
            lemma_mixed_product_in_i128(self@.num, rhs@.den);
            lemma_mixed_product_in_i128(rhs@.num, self@.den);
        }
        let p1: i128 = (self.num as i128) * (rhs.den as i128);
        let p2: i128 = (rhs.num as i128) * (self.den as i128);
        p1 <= p2
    }

    /// Exact `self < rhs`.
    pub fn lt(&self, rhs: &Ratio) -> (r: bool)
        requires
            self.wf(),
            rhs.wf(),
        ensures
            r == rat_lt(self@, rhs@),
    {
        proof {
            lemma_mixed_product_in_i128(self@.num, rhs@.den);
            lemma_mixed_product_in_i128(rhs@.num, self@.den);
        }
        let p1: i128 = (self.num as i128) * (rhs.den as i128);
        let p2: i128 = (rhs.num as i128) * (self.den as i128);
        p1 < p2
    }

    /// Exact sum; `None` exactly when the unreduced result pair does not
    /// fit the 64-bit representation.
    pub fn checked_add(&self, rhs: &Ratio) -> (r: Option<Ratio>)
        requires
            self.wf(),
            rhs.wf(),
        ensures
            match r {
                Some(c) => {
                    &&& c.wf()
                    &&& c@ == rat_add(self@, rhs@)
                    &&& rat_fits(rat_add(self@, rhs@))
                },
                None => !rat_fits(rat_add(self@, rhs@)),
            },
    {
        proof {
            lemma_mixed_product_in_i128(self@.num, rhs@.den);
            lemma_mixed_product_in_i128(rhs@.num, self@.den);
            lemma_unsigned_product_in_u128(self@.den, rhs@.den);
            lemma_pos_product(self@.den, rhs@.den);
        }
        let p1: i128 = (self.num as i128) * (rhs.den as i128);
        let p2: i128 = (rhs.num as i128) * (self.den as i128);
        let d: u128 = (self.den as u128) * (rhs.den as u128);
        if p1 >= 0 && p2 > i128::MAX - p1 {
            return None;
        }
        if p1 < 0 && p2 < i128::MIN - p1 {
            return None;
        }
        let n: i128 = p1 + p2;
        if n < i64::MIN as i128 || n > i64::MAX as i128 || d > u64::MAX as u128 {
            return None;
        }
        Some(Ratio { num: n as i64, den: d as u64 })
    }

    /// Exact difference; `None` exactly when the unreduced result pair
    /// does not fit the 64-bit representation.
    pub fn checked_sub(&self, rhs: &Ratio) -> (r: Option<Ratio>)
        requires
            self.wf(),
            rhs.wf(),
        ensures
            match r {
                Some(c) => {
                    &&& c.wf()
                    &&& c@ == rat_sub(self@, rhs@)
                    &&& rat_fits(rat_sub(self@, rhs@))
                },
                None => !rat_fits(rat_sub(self@, rhs@)),
            },
    {
        proof {
            lemma_mixed_product_in_i128(self@.num, rhs@.den);
            lemma_mixed_product_in_i128(rhs@.num, self@.den);
            lemma_unsigned_product_in_u128(self@.den, rhs@.den);
            lemma_pos_product(self@.den, rhs@.den);
        }
        let p1: i128 = (self.num as i128) * (rhs.den as i128);
        let p2: i128 = (rhs.num as i128) * (self.den as i128);
        let d: u128 = (self.den as u128) * (rhs.den as u128);
        if p2 < 0 && p1 > i128::MAX + p2 {
            return None;
        }
        if p2 > 0 && p1 < i128::MIN + p2 {
            return None;
        }
        let n: i128 = p1 - p2;
        if n < i64::MIN as i128 || n > i64::MAX as i128 || d > u64::MAX as u128 {
            return None;
        }
        Some(Ratio { num: n as i64, den: d as u64 })
    }

    /// Exact product; `None` exactly when the unreduced result pair does
    /// not fit the 64-bit representation.
    pub fn checked_mul(&self, rhs: &Ratio) -> (r: Option<Ratio>)
        requires
            self.wf(),
            rhs.wf(),
        ensures
            match r {
                Some(c) => {
                    &&& c.wf()
                    &&& c@ == rat_mul(self@, rhs@)
                    &&& rat_fits(rat_mul(self@, rhs@))
                },
                None => !rat_fits(rat_mul(self@, rhs@)),
            },
    {
        proof {
            lemma_signed_product_in_i128(self@.num, rhs@.num);
            lemma_unsigned_product_in_u128(self@.den, rhs@.den);
            lemma_pos_product(self@.den, rhs@.den);
        }
        let n: i128 = (self.num as i128) * (rhs.num as i128);
        let d: u128 = (self.den as u128) * (rhs.den as u128);
        if n < i64::MIN as i128 || n > i64::MAX as i128 || d > u64::MAX as u128 {
            return None;
        }
        Some(Ratio { num: n as i64, den: d as u64 })
    }

    /// Exact quotient by a strictly positive divisor; `None` exactly when
    /// the unreduced result pair does not fit the 64-bit representation.
    pub fn checked_div(&self, rhs: &Ratio) -> (r: Option<Ratio>)
        requires
            self.wf(),
            rhs.wf(),
            rhs@.num > 0,
        ensures
            match r {
                Some(c) => {
                    &&& c.wf()
                    &&& c@ == rat_div(self@, rhs@)
                    &&& rat_fits(rat_div(self@, rhs@))
                },
                None => !rat_fits(rat_div(self@, rhs@)),
            },
    {
        proof {
            lemma_mixed_product_in_i128(self@.num, rhs@.den);
            lemma_mixed_product_in_i128(rhs@.num, self@.den);
            lemma_pos_product(self@.den, rhs@.num);
        }
        let n: i128 = (self.num as i128) * (rhs.den as i128);
        let d: i128 = (self.den as i128) * (rhs.num as i128);
        if n < i64::MIN as i128 || n > i64::MAX as i128 || d > u64::MAX as i128 {
            return None;
        }
        Some(Ratio { num: n as i64, den: d as u64 })
    }

    /// Whether `|self| < bound_num / bound_den`, exactly.
    pub fn abs_below(&self, bound_num: u64, bound_den: u64) -> (r: bool)
        requires
            self.wf(),
            bound_den >= 1,
        ensures
            r == rat_lt(
                rat_abs(self@),
                Rat { num: bound_num as int, den: bound_den as int },
            ),
    {
        proof {
            if self@.num < 0 {
                lemma_unsigned_product_in_u128(-self@.num, bound_den as int);
            } else {
                lemma_unsigned_product_in_u128(self@.num, bound_den as int);
            }
            lemma_unsigned_product_in_u128(bound_num as int, self@.den);
        }
        let a: i128 = self.num as i128;
        let m: u128 = if a < 0 { (-a) as u128 } else { a as u128 };
        let lhs: u128 = m * (bound_den as u128);
        let rhs_v: u128 = (bound_num as u128) * (self.den as u128);
        lhs < rhs_v
    }
}

} // verus!

verus! {

/// All elements of a ghost rational sequence are well-formed.
pub open spec fn rats_wf(s: Seq<Rat>) -> bool {
    forall|i: int| 0 <= i < s.len() ==> (#[trigger] s[i]).wf()
}

/// Exact sum of a sequence of rationals, folded from the left.
pub open spec fn rat_sum(s: Seq<Rat>) -> Rat
    decreases s.len(),
{
    if s.len() == 0 {
        rat_zero()
    } else {
        rat_add(rat_sum(s.drop_last()), s.last())
    }
}

/// The sum of well-formed rationals is well-formed.
pub proof fn lemma_rat_sum_wf(s: Seq<Rat>)
    requires
        rats_wf(s),
    ensures
        rat_sum(s).wf(),
    decreases s.len(),
{
    if s.len() > 0 {
        lemma_rat_sum_wf(s.drop_last());
        lemma_pos_product(rat_sum(s.drop_last()).den, s.last().den);
    }
}

/// A sum of non-negative rationals is non-negative.
pub proof fn lemma_rat_sum_nonneg(s: Seq<Rat>)
    requires
        rats_wf(s),
        forall|i: int| 0 <= i < s.len() ==> (#[trigger] s[i]).num >= 0,
    ensures
        rat_sum(s).num >= 0,
    decreases s.len(),
{
    if s.len() > 0 {
        lemma_rat_sum_nonneg(s.drop_last());
        lemma_rat_sum_wf(s.drop_last());
        let a = rat_sum(s.drop_last());
        let b = s.last();
        lemma_nonneg_product(a.num, b.den);
        lemma_nonneg_product(b.num, a.den);
    }
}

/// A product of non-negative integers is non-negative.
pub proof fn lemma_nonneg_product(x: int, y: int)
    by (nonlinear_arith)
    requires
        x >= 0,
        y >= 0,
    ensures
        x * y >= 0,
{
}

proof fn lemma_eq_trans_int(an: int, ad: int, bn: int, bd: int, cn: int, cd: int)
    by (nonlinear_arith)
    requires
        ad >= 1,
        bd >= 1,
        cd >= 1,
        an * bd == bn * ad,
        bn * cd == cn * bd,
    ensures
        an * cd == cn * ad,
{
    assert((an * cd) * bd == (cn * ad) * bd) by {
        assert((an * cd) * bd == (an * bd) * cd);
        assert((an * bd) * cd == (bn * ad) * cd);
        assert((bn * ad) * cd == (bn * cd) * ad);
        assert((bn * cd) * ad == (cn * bd) * ad);
        assert((cn * bd) * ad == (cn * ad) * bd);
    }
}

/// Rational equality is transitive (over positive denominators).
pub proof fn lemma_rat_eq_trans(a: Rat, b: Rat, c: Rat)
    requires
        a.wf(),
        b.wf(),
        c.wf(),
        rat_eq(a, b),
        rat_eq(b, c),
    ensures
        rat_eq(a, c),
{
    lemma_eq_trans_int(a.num, a.den, b.num, b.den, c.num, c.den);
}

#[verifier::rlimit(100)]
proof fn lemma_add_congruence_int(an: int, ad: int, xn: int, xd: int, bn: int, bd: int)
    requires
        an * xd == xn * ad,
    ensures
        (an * bd + bn * ad) * (xd * bd) == (xn * bd + bn * xd) * (ad * bd),
{
    broadcast use vstd::arithmetic::mul::lemma_mul_is_associative;
    broadcast use vstd::arithmetic::mul::lemma_mul_is_commutative;
    broadcast use vstd::arithmetic::mul::lemma_mul_is_distributive_add_other_way;
    assert((an * bd) * (xd * bd) == (xn * bd) * (ad * bd)) by {
        assert((an * bd) * (xd * bd) == (an * xd) * (bd * bd));
        assert((xn * bd) * (ad * bd) == (xn * ad) * (bd * bd));
    }
    assert((bn * ad) * (xd * bd) == (bn * xd) * (ad * bd));
}

/// Replacing one summand by an equal rational keeps the sum equal.
pub proof fn lemma_rat_add_congruence(a: Rat, x: Rat, b: Rat)
    requires
        rat_eq(a, x),
    ensures
        rat_eq(rat_add(a, b), rat_add(x, b)),
{
    lemma_add_congruence_int(a.num, a.den, x.num, x.den, b.num, b.den);
}

#[verifier::rlimit(100)]
proof fn lemma_div_add_gather(an: int, ad: int, bn: int, bd: int, sn: int, sd: int)
    ensures
        (an * sd) * (bd * sn) + (bn * sd) * (ad * sn) == (sd * sn) * (an * bd + bn * ad),
{
    broadcast use vstd::arithmetic::mul::lemma_mul_is_associative;
    broadcast use vstd::arithmetic::mul::lemma_mul_is_commutative;
    broadcast use vstd::arithmetic::mul::lemma_mul_is_distributive_add;
}

#[verifier::rlimit(100)]
proof fn lemma_div_add_regroup(t: int, ad: int, bd: int, sn: int, sd: int)
    ensures
        ((sd * sn) * t) * ((ad * bd) * sn) == (t * sd) * ((ad * sn) * (bd * sn)),
{
    broadcast use vstd::arithmetic::mul::lemma_mul_is_associative;
    broadcast use vstd::arithmetic::mul::lemma_mul_is_commutative;
}

proof fn lemma_div_add_int(an: int, ad: int, bn: int, bd: int, sn: int, sd: int)
    ensures
        ((an * sd) * (bd * sn) + (bn * sd) * (ad * sn)) * ((ad * bd) * sn) == ((an * bd + bn * ad)
            * sd) * ((ad * sn) * (bd * sn)),
{
    lemma_div_add_gather(an, ad, bn, bd, sn, sd);
    lemma_div_add_regroup(an * bd + bn * ad, ad, bd, sn, sd);
}

/// Division distributes over addition: `a/s + b/s == (a + b)/s`.
pub proof fn lemma_rat_div_add(a: Rat, b: Rat, s: Rat)
    requires
        s.num > 0,
    ensures
        rat_eq(rat_add(rat_div(a, s), rat_div(b, s)), rat_div(rat_add(a, b), s)),
{
    lemma_div_add_int(a.num, a.den, b.num, b.den, s.num, s.den);
}

/// A nonzero rational divided by itself is one.
pub proof fn lemma_rat_div_self(s: Rat)
    requires
        s.num > 0,
    ensures
        rat_eq(rat_div(s, s), rat_one()),
{
    assert((s.num * s.den) * 1 == 1 * (s.den * s.num)) by (nonlinear_arith);
}

proof fn lemma_mul_div_cancel_int(kn: int, kd: int, an: int, ad: int)
    by (nonlinear_arith)
    ensures
        (an * (kn * ad)) * kd == kn * (ad * (kd * an)),
{
}

/// Multiplying a quotient by its divisor restores the dividend:
/// `a * (k/a) == k`.
pub proof fn lemma_rat_mul_div_cancel(k: Rat, a: Rat)
    requires
        a.num > 0,
    ensures
        rat_eq(rat_mul(a, rat_div(k, a)), k),
{
    lemma_mul_div_cancel_int(k.num, k.den, a.num, a.den);
}

/// Quotients and division results are well-formed when the inputs are.
pub proof fn lemma_rat_div_wf(a: Rat, s: Rat)
    requires
        a.wf(),
        s.num > 0,
    ensures
        rat_div(a, s).wf(),
{
    lemma_pos_product(a.den, s.num);
}

/// Sums of well-formed rationals are well-formed.
pub proof fn lemma_rat_add_wf(a: Rat, b: Rat)
    requires
        a.wf(),
        b.wf(),
    ensures
        rat_add(a, b).wf(),
{
    lemma_pos_product(a.den, b.den);
}

/// Summing the element-wise quotients by `s` gives the quotient of the
/// sum: `sum(q[i]/s) == sum(q)/s`.
pub proof fn lemma_rat_sum_div(q: Seq<Rat>, s: Rat)
    requires
        rats_wf(q),
        s.num > 0,
        s.wf(),
    ensures
        rat_eq(rat_sum(q.map_values(|x: Rat| rat_div(x, s))), rat_div(rat_sum(q), s)),
    decreases q.len(),
{
    let m = q.map_values(|x: Rat| rat_div(x, s));
    if q.len() == 0 {
        assert(m.len() == 0);
        assert(rat_sum(m) == rat_zero());
        assert(rat_sum(q) == rat_zero());
        assert(rat_div(rat_zero(), s) == (Rat { num: 0 * s.den, den: 1 * s.num }));
        assert(rat_eq(rat_sum(m), rat_div(rat_sum(q), s)));
    } else {
        let prefix = q.drop_last();
        let mp = prefix.map_values(|x: Rat| rat_div(x, s));
        assert(m.drop_last() =~= mp);
        lemma_rat_sum_div(prefix, s);
        assert(rats_wf(mp)) by {
            assert forall|i: int| 0 <= i < mp.len() implies (#[trigger] mp[i]).wf() by {
                lemma_rat_div_wf(prefix[i], s);
            }
        }
        let sp = rat_sum(prefix);
        lemma_rat_sum_wf(prefix);
        lemma_rat_add_congruence(rat_sum(mp), rat_div(sp, s), rat_div(q.last(), s));
        lemma_rat_div_add(sp, q.last(), s);
        lemma_rat_sum_wf(mp);
        lemma_rat_div_wf(q.last(), s);
        lemma_rat_add_wf(rat_sum(mp), rat_div(q.last(), s));
        lemma_rat_div_wf(sp, s);
        lemma_rat_add_wf(rat_div(sp, s), rat_div(q.last(), s));
        lemma_rat_add_wf(sp, q.last());
        lemma_rat_div_wf(rat_add(sp, q.last()), s);
        lemma_rat_eq_trans(
            rat_sum(m),
            rat_add(rat_div(sp, s), rat_div(q.last(), s)),
            rat_div(rat_sum(q), s),
        );
    }
}

/// Dividing every element of a sequence by the sequence's own (positive)
/// sum yields quotients that sum to exactly one.
pub proof fn lemma_rat_sum_div_is_one(q: Seq<Rat>)
    requires
        rats_wf(q),
        rat_sum(q).num > 0,
    ensures
        rat_eq(rat_sum(q.map_values(|x: Rat| rat_div(x, rat_sum(q)))), rat_one()),
{
    let s = rat_sum(q);
    lemma_rat_sum_wf(q);
    lemma_rat_sum_div(q, s);
    lemma_rat_div_self(s);
    let m = q.map_values(|x: Rat| rat_div(x, s));
    assert(rats_wf(m)) by {
        assert forall|i: int| 0 <= i < m.len() implies (#[trigger] m[i]).wf() by {
            lemma_rat_div_wf(q[i], s);
        }
    }
    lemma_rat_sum_wf(m);
    lemma_rat_div_wf(s, s);
    lemma_rat_eq_trans(rat_sum(m), rat_div(s, s), rat_one());
}

} // verus!
