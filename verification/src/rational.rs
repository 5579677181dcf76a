//! Exact rational scalars for fractal-space coordinates.
//!
//! Every coordinate the engine works with is a rational number `num / den`
//! held in an [`Rat`].  The mathematical value of a `Rat` is its view, a
//! [`Ratio`] of unbounded integers, and every specification in the crate is
//! stated over such pairs: two pairs denote the same rational exactly when
//! their cross products agree ([`r_eq`]).  Arithmetic on `Rat` is exact:
//! a result is either the true rational of the operation, brought to lowest
//! terms, or `None` when even the reduced form does not fit the fixed field
//! bounds.  Nothing is ever rounded.

use vstd::arithmetic::div_mod::{
    lemma_fundamental_div_mod, lemma_fundamental_div_mod_converse, lemma_mod_multiples_basic,
    lemma_mod_self_0, lemma_small_mod,
};
use vstd::prelude::*;

verus! {

/// Largest magnitude a numerator may take, and largest denominator, in a
/// well-formed [`Rat`].  Keeping both within `2^20` lets every fused
/// computation in the crate run in `i128` without overflow.
pub const RAT_BOUND: i64 = 1048576;

/// The mathematical value of a rational scalar: a numerator and a
/// denominator, both unbounded.  Purely ghost; specifications are written
/// over `Ratio` pairs.
pub ghost struct Ratio {
    pub n: int,
    pub d: int,
}

/// A pair denotes a rational number only when its denominator is positive.
pub open spec fn r_wf(x: Ratio) -> bool {
    x.d > 0
}

/// `x` and `y` denote the same rational number (cross multiplication).
pub open spec fn r_eq(x: Ratio, y: Ratio) -> bool {
    x.n * y.d == y.n * x.d
}

/// `x <= y` as rationals; meaningful when both denominators are positive.
pub open spec fn r_le(x: Ratio, y: Ratio) -> bool {
    x.n * y.d <= y.n * x.d
}

/// `x < y` as rationals; meaningful when both denominators are positive.
pub open spec fn r_lt(x: Ratio, y: Ratio) -> bool {
    x.n * y.d < y.n * x.d
}

/// The exact sum of two pairs.
pub open spec fn r_add(x: Ratio, y: Ratio) -> Ratio {
    Ratio { n: x.n * y.d + y.n * x.d, d: x.d * y.d }
}

/// The exact difference of two pairs.
pub open spec fn r_sub(x: Ratio, y: Ratio) -> Ratio {
    Ratio { n: x.n * y.d - y.n * x.d, d: x.d * y.d }
}

/// The exact product of two pairs.
pub open spec fn r_mul(x: Ratio, y: Ratio) -> Ratio {
    Ratio { n: x.n * y.n, d: x.d * y.d }
}

/// The exact quotient `x / y`; denotes a rational in the sense of [`r_wf`]
/// only when `y.n > 0`, which is how the crate uses it (screen sizes).
pub open spec fn r_div(x: Ratio, y: Ratio) -> Ratio {
    Ratio { n: x.n * y.d, d: x.d * y.n }
}

/// The exact negation of a pair.
pub open spec fn r_neg(x: Ratio) -> Ratio {
    Ratio { n: -x.n, d: x.d }
}

/// The rational with integer value `n`.
pub open spec fn r_int(n: int) -> Ratio {
    Ratio { n: n, d: 1 }
}

/// Greatest common divisor, by Euclid's recurrence.
pub open spec fn gcd(a: nat, b: nat) -> nat
    decreases b,
{
    if b == 0 {
        a
    } else {
        gcd(b, a % b)
    }
}

/// The gcd of `a` and `b` is positive and divides both, as soon as one of
/// the two is positive.
pub proof fn lemma_gcd_divides(a: nat, b: nat)
    ensures
        a > 0 || b > 0 ==> {
            let g = gcd(a, b);
            &&& g > 0
            &&& (a as int) % (g as int) == 0
            &&& (b as int) % (g as int) == 0
        },
    decreases b,
{
    if b == 0 {
        if a > 0 {
            lemma_mod_self_0(a as int);
            lemma_small_mod(0, a);
        }
    } else {
        let r = a % b;
        lemma_gcd_divides(b, r);
        let g = gcd(b, r);
        assert(g > 0);
        assert((b as int) % (g as int) == 0);
        assert((r as int) % (g as int) == 0);
        lemma_fundamental_div_mod(b as int, g as int);
        lemma_fundamental_div_mod(r as int, g as int);
        let qb = b as int / g as int;
        let qr = r as int / g as int;
        assert(b == g * qb + 0);
        assert(r == g * qr + 0);
        lemma_fundamental_div_mod(a as int, b as int);
        let q = a as int / b as int;
        assert(a == b * q + r);
        assert(a == (g as int) * (qb * q + qr)) by (nonlinear_arith)
            requires
                a == b * q + r,
                b == g * qb + 0,
                r == g * qr + 0,
        ;
        lemma_mod_multiples_basic(qb * q + qr, g as int);
        assert((qb * q + qr) * (g as int) == (g as int) * (qb * q + qr)) by (nonlinear_arith);
        assert((a as int) % (g as int) == 0);
        assert(gcd(a, b) == g);
    }
}

/// Euclid's algorithm on machine words.
fn gcd_u128(a0: u128, b0: u128) -> (g: u128)
    ensures
        g == gcd(a0 as nat, b0 as nat),
{
    let mut a = a0;
    let mut b = b0;
    while b != 0
        invariant
            gcd(a as nat, b as nat) == gcd(a0 as nat, b0 as nat),
        decreases b,
    {
        let r = a % b;
        assert(gcd(a as nat, b as nat) == gcd(b as nat, r as nat));
        a = b;
        b = r;
    }
    a
}

/// A product of two factors of bounded magnitude is bounded.
pub proof fn lemma_mul_bounds(x: int, y: int, bx: int, by: int)
    by (nonlinear_arith)
    requires
        -bx <= x <= bx,
        -by <= y <= by,
        0 <= bx,
        0 <= by,
    ensures
        -(bx * by) <= x * y <= bx * by,
{
}

/// A product of two positive factors is positive.
pub proof fn lemma_mul_pos(x: int, y: int)
    by (nonlinear_arith)
    requires
        x > 0,
        y > 0,
    ensures
        x * y > 0,
{
}

/// Denoting the same rational is transitive, as long as the middle pair has
/// a nonzero denominator.
pub proof fn lemma_r_eq_trans(x: Ratio, y: Ratio, z: Ratio)
    by (nonlinear_arith)
    requires
        r_eq(x, y),
        r_eq(y, z),
        y.d != 0,
    ensures
        r_eq(x, z),
{
}

/// Regrouping a product of four factors: `(a*b)*(c*d) == (a*c)*(b*d)`.
pub proof fn lemma_mul_regroup(a: int, b: int, c: int, d: int)
    ensures
        (a * b) * (c * d) == (a * c) * (b * d),
{
    broadcast use vstd::arithmetic::mul::group_mul_properties;

    assert((a * b) * (c * d) == a * (b * (c * d)));
    assert(b * (c * d) == (b * c) * d);
    assert((b * c) * d == (c * b) * d);
    assert((c * b) * d == c * (b * d));
    assert(a * (c * (b * d)) == (a * c) * (b * d));
}

/// Negations of equal rationals are equal.
pub proof fn lemma_neg_congr(y: Ratio, y2: Ratio)
    requires
        r_eq(y, y2),
    ensures
        r_eq(r_neg(y), r_neg(y2)),
{
    assert((-y.n) * y2.d == -(y.n * y2.d) && (-y2.n) * y.d == -(y2.n * y.d))
        by (nonlinear_arith);
}

/// Adding a negated rational is subtracting it, pair for pair.
pub proof fn lemma_add_neg_is_sub(x: Ratio, y: Ratio)
    ensures
        r_add(x, r_neg(y)) == r_sub(x, y),
{
    assert((-y.n) * x.d == -(y.n * x.d)) by (nonlinear_arith);
}

/// Sums of equal rationals are equal.
pub proof fn lemma_add_congr(x: Ratio, x2: Ratio, y: Ratio, y2: Ratio)
    requires
        r_eq(x, x2),
        r_eq(y, y2),
    ensures
        r_eq(r_add(x, y), r_add(x2, y2)),
{
    broadcast use vstd::arithmetic::mul::group_mul_properties;

    lemma_mul_regroup(x.n, y.d, x2.d, y2.d);
    lemma_mul_regroup(y.n, x.d, y2.d, x2.d);
    lemma_mul_regroup(x2.n, y2.d, x.d, y.d);
    lemma_mul_regroup(y2.n, x2.d, y.d, x.d);
    assert((x.n * y.d + y.n * x.d) * (x2.d * y2.d) == (x.n * y.d) * (x2.d * y2.d) + (y.n * x.d)
        * (x2.d * y2.d));
    assert((x2.n * y2.d + y2.n * x2.d) * (x.d * y.d) == (x2.n * y2.d) * (x.d * y.d) + (y2.n
        * x2.d) * (x.d * y.d));
    assert((y.n * x.d) * (x2.d * y2.d) == (y.n * x.d) * (y2.d * x2.d));
    assert((y2.n * x2.d) * (x.d * y.d) == (y2.n * x2.d) * (y.d * x.d));
    assert((x.n * x2.d) * (y.d * y2.d) == (x2.n * x.d) * (y.d * y2.d));
    assert((y.n * y2.d) * (x.d * x2.d) == (y2.n * y.d) * (x.d * x2.d));
    assert((x2.n * x.d) * (y2.d * y.d) == (x2.n * x.d) * (y.d * y2.d));
    assert((y2.n * y.d) * (x2.d * x.d) == (y2.n * y.d) * (x.d * x2.d));
}

/// Differences of equal rationals are equal.
pub proof fn lemma_sub_congr(x: Ratio, x2: Ratio, y: Ratio, y2: Ratio)
    requires
        r_eq(x, x2),
        r_eq(y, y2),
    ensures
        r_eq(r_sub(x, y), r_sub(x2, y2)),
{
    lemma_neg_congr(y, y2);
    lemma_add_congr(x, x2, r_neg(y), r_neg(y2));
    lemma_add_neg_is_sub(x, y);
    lemma_add_neg_is_sub(x2, y2);
}

/// Products of equal rationals are equal.
pub proof fn lemma_mul_congr(x: Ratio, x2: Ratio, y: Ratio, y2: Ratio)
    requires
        r_eq(x, x2),
        r_eq(y, y2),
    ensures
        r_eq(r_mul(x, y), r_mul(x2, y2)),
{
    broadcast use vstd::arithmetic::mul::group_mul_properties;

    lemma_mul_regroup(x.n, y.n, x2.d, y2.d);
    lemma_mul_regroup(x2.n, x.d, y2.n, y.d);
    assert((x.n * x2.d) * (y.n * y2.d) == (x2.n * x.d) * (y2.n * y.d));
}

/// Quotients of equal rationals by the same divisor are equal.
pub proof fn lemma_div_congr_left(x: Ratio, x2: Ratio, s: Ratio)
    by (nonlinear_arith)
    requires
        r_eq(x, x2),
    ensures
        r_eq(r_div(x, s), r_div(x2, s)),
{
}

/// Subtracting and then adding back the same rational is the identity.
pub proof fn lemma_sub_add_cancel(x: Ratio, y: Ratio)
    by (nonlinear_arith)
    ensures
        r_eq(r_add(r_sub(x, y), y), x),
{
}

/// Negation commutes with multiplication on pairs.
pub proof fn lemma_neg_mul(x: Ratio, y: Ratio)
    by (nonlinear_arith)
    ensures
        r_mul(r_neg(x), y) == r_neg(r_mul(x, y)),
{
}

/// Subtracting a negated rational is adding it.
pub proof fn lemma_sub_neg_is_add(x: Ratio, y: Ratio)
    ensures
        r_sub(x, r_neg(y)) == r_add(x, y),
{
    assert((-y.n) * x.d == -(y.n * x.d)) by (nonlinear_arith);
}

/// A rational equal to a positive one is positive.
pub proof fn lemma_pos_from_eq(x: Ratio, y: Ratio)
    by (nonlinear_arith)
    requires
        r_eq(x, y),
        y.n > 0,
        y.d > 0,
        x.d > 0,
    ensures
        x.n > 0,
{
}

/// The reduced form of the pair `n / d` fits the [`RAT_BOUND`] field bounds.
/// This is exactly the condition under which normalization succeeds.
pub open spec fn norm_fits(n: int, d: int) -> bool {
    let g = gcd((if n >= 0 { n } else { -n }) as nat, d as nat) as int;
    &&& n <= RAT_BOUND * g
    &&& -(RAT_BOUND * g) <= n
    &&& d <= RAT_BOUND * g
}

/// Two scalars with the same mathematical pair are the same value.
pub proof fn lemma_view_injective(a: Rat, b: Rat)
    requires
        a@ == b@,
    ensures
        a == b,
{
}

/// The pair `n / d` brought to lowest terms (denominator kept positive).
pub open spec fn reduced(n: int, d: int) -> Ratio {
    let g = gcd((if n >= 0 { n } else { -n }) as nat, d as nat) as int;
    Ratio { n: n / g, d: d / g }
}

/// An exact rational scalar.  The fields are kept private so that a value
/// can only be built within its well-formedness bounds.
#[derive(Clone, Copy, PartialEq, Eq, Structural, Debug)]
pub struct Rat {
    num: i64,
    den: i64,
}

impl View for Rat {
    type V = Ratio;

    closed spec fn view(&self) -> Ratio {
        Ratio { n: self.num as int, d: self.den as int }
    }
}

impl Rat {
    /// A well-formed scalar: positive denominator, both fields within
    /// [`RAT_BOUND`].
    pub open spec fn wf(self) -> bool {
        &&& 0 < self@.d <= RAT_BOUND
        &&& -RAT_BOUND <= self@.n <= RAT_BOUND
    }

    /// The rational `num / den`.
    pub fn new(num: i64, den: i64) -> (r: Rat)
        requires
            0 < den <= RAT_BOUND,
            -RAT_BOUND <= num <= RAT_BOUND,
        ensures
            r.wf(),
            r@ == (Ratio { n: num as int, d: den as int }),
    {
        Rat { num, den }
    }

    /// The rational with integer value `n`.
    pub fn from_int(n: i64) -> (r: Rat)
        requires
            -RAT_BOUND <= n <= RAT_BOUND,
        ensures
            r.wf(),
            r@ == r_int(n as int),
    {
        Rat { num: n, den: 1 }
    }

    /// The numerator as stored.
    pub fn num(self) -> (n: i64)
        ensures
            n == self@.n,
    {
        self.num
    }

    /// The denominator as stored.
    pub fn den(self) -> (d: i64)
        ensures
            d == self@.d,
    {
        self.den
    }

    /// Whether `self` and `other` denote the same rational number.
    pub fn eq_val(self, other: Rat) -> (r: bool)
        requires
            self.wf(),
            other.wf(),
        ensures
            r == r_eq(self@, other@),
    {
        proof {
            lemma_mul_bounds(self@.n, other@.d, RAT_BOUND as int, RAT_BOUND as int);
            lemma_mul_bounds(other@.n, self@.d, RAT_BOUND as int, RAT_BOUND as int);
        }
        (self.num as i128) * (other.den as i128) == (other.num as i128) * (self.den as i128)
    }

    /// Whether `self <= other` as rationals.
    pub fn le(self, other: Rat) -> (r: bool)
        requires
            self.wf(),
            other.wf(),
        ensures
            r == r_le(self@, other@),
    {
        proof {
            lemma_mul_bounds(self@.n, other@.d, RAT_BOUND as int, RAT_BOUND as int);
            lemma_mul_bounds(other@.n, self@.d, RAT_BOUND as int, RAT_BOUND as int);
        }
        (self.num as i128) * (other.den as i128) <= (other.num as i128) * (self.den as i128)
    }

    /// Whether `self < other` as rationals.
    pub fn lt(self, other: Rat) -> (r: bool)
        requires
            self.wf(),
            other.wf(),
        ensures
            r == r_lt(self@, other@),
    {
        proof {
            lemma_mul_bounds(self@.n, other@.d, RAT_BOUND as int, RAT_BOUND as int);
            lemma_mul_bounds(other@.n, self@.d, RAT_BOUND as int, RAT_BOUND as int);
        }
        (self.num as i128) * (other.den as i128) < (other.num as i128) * (self.den as i128)
    }

    /// Exact negation.
    pub fn neg(self) -> (r: Rat)
        requires
            self.wf(),
        ensures
            r.wf(),
            r@ == r_neg(self@),
    {
        Rat { num: -self.num, den: self.den }
    }

    /// Exact sum, in lowest terms; `None` exactly when even the reduced sum
    /// does not fit the field bounds.
    pub fn add(self, other: Rat) -> (r: Option<Rat>)
        requires
            self.wf(),
            other.wf(),
        ensures
            r matches Some(q) ==> q.wf() && r_eq(q@, r_add(self@, other@)),
            r matches Some(q) ==> q@ == reduced(r_add(self@, other@).n, r_add(self@, other@).d),
            r is Some <==> norm_fits(r_add(self@, other@).n, r_add(self@, other@).d),
    {
        proof {
            lemma_mul_bounds(self@.n, other@.d, RAT_BOUND as int, RAT_BOUND as int);
            lemma_mul_bounds(other@.n, self@.d, RAT_BOUND as int, RAT_BOUND as int);
            lemma_mul_bounds(self@.d, other@.d, RAT_BOUND as int, RAT_BOUND as int);
            lemma_mul_pos(self@.d, other@.d);
        }
        let n = (self.num as i128) * (other.den as i128) + (other.num as i128) * (self.den
            as i128);
        let d = (self.den as i128) * (other.den as i128);
        normalize(n, d)
    }

    /// Exact difference, in lowest terms; `None` exactly when even the
    /// reduced difference does not fit the field bounds.
    pub fn sub(self, other: Rat) -> (r: Option<Rat>)
        requires
            self.wf(),
            other.wf(),
        ensures
            r matches Some(q) ==> q.wf() && r_eq(q@, r_sub(self@, other@)),
            r matches Some(q) ==> q@ == reduced(r_sub(self@, other@).n, r_sub(self@, other@).d),
            r is Some <==> norm_fits(r_sub(self@, other@).n, r_sub(self@, other@).d),
    {
        proof {
            lemma_mul_bounds(self@.n, other@.d, RAT_BOUND as int, RAT_BOUND as int);
            lemma_mul_bounds(other@.n, self@.d, RAT_BOUND as int, RAT_BOUND as int);
            lemma_mul_bounds(self@.d, other@.d, RAT_BOUND as int, RAT_BOUND as int);
            lemma_mul_pos(self@.d, other@.d);
        }
        let n = (self.num as i128) * (other.den as i128) - (other.num as i128) * (self.den
            as i128);
        let d = (self.den as i128) * (other.den as i128);
        normalize(n, d)
    }

    /// Exact product, in lowest terms; `None` exactly when even the reduced
    /// product does not fit the field bounds.
    pub fn mul(self, other: Rat) -> (r: Option<Rat>)
        requires
            self.wf(),
            other.wf(),
        ensures
            r matches Some(q) ==> q.wf() && r_eq(q@, r_mul(self@, other@)),
            r matches Some(q) ==> q@ == reduced(r_mul(self@, other@).n, r_mul(self@, other@).d),
            r is Some <==> norm_fits(r_mul(self@, other@).n, r_mul(self@, other@).d),
    {
        proof {
            lemma_mul_bounds(self@.n, other@.n, RAT_BOUND as int, RAT_BOUND as int);
            lemma_mul_bounds(self@.d, other@.d, RAT_BOUND as int, RAT_BOUND as int);
            lemma_mul_pos(self@.d, other@.d);
        }
        let n = (self.num as i128) * (other.num as i128);
        let d = (self.den as i128) * (other.den as i128);
        normalize(n, d)
    }

    /// Exact quotient by a positive rational, in lowest terms; `None`
    /// exactly when even the reduced quotient does not fit the field bounds.
    pub fn div(self, other: Rat) -> (r: Option<Rat>)
        requires
            self.wf(),
            other.wf(),
            other@.n > 0,
        ensures
            r matches Some(q) ==> q.wf() && r_eq(q@, r_div(self@, other@)),
            r matches Some(q) ==> q@ == reduced(r_div(self@, other@).n, r_div(self@, other@).d),
            r is Some <==> norm_fits(r_div(self@, other@).n, r_div(self@, other@).d),
    {
        proof {
            lemma_mul_bounds(self@.n, other@.d, RAT_BOUND as int, RAT_BOUND as int);
            lemma_mul_bounds(self@.d, other@.n, RAT_BOUND as int, RAT_BOUND as int);
            lemma_mul_pos(self@.d, other@.n);
        }
        let n = (self.num as i128) * (other.den as i128);
        let d = (self.den as i128) * (other.num as i128);
        normalize(n, d)
    }
}

/// Brings `n / d` to lowest terms and narrows it to a [`Rat`].
///
/// Succeeds exactly when the reduced numerator and denominator fit the
/// field bounds ([`norm_fits`]); the value returned is always the exact
/// rational `n / d`.
pub(crate) fn normalize(n: i128, d: i128) -> (r: Option<Rat>)
    requires
        0 < d,
        -0x7fffffffffffffffffffffffffffffff <= n,
    ensures
        r matches Some(q) ==> q.wf() && r_eq(q@, Ratio { n: n as int, d: d as int }),
        r matches Some(q) ==> q@ == reduced(n as int, d as int),
        r is Some <==> norm_fits(n as int, d as int),
{
    let neg = n < 0;
    let na: u128 = if n < 0 {
        (-n) as u128
    } else {
        n as u128
    };
    let du: u128 = d as u128;
    let g = gcd_u128(na, du);
    proof {
        lemma_gcd_divides(na as nat, du as nat);
    }
    let ghost gi = g as int;
    assert(g > 0);
    assert(na % g == (na as int) % gi);
    let qn = na / g;
    let qd = du / g;
    proof {
        lemma_fundamental_div_mod(na as int, gi);
        lemma_fundamental_div_mod(du as int, gi);
    }
    assert(na as int == gi * (qn as int));
    assert(du as int == gi * (qd as int));
    if qn <= (RAT_BOUND as u128) && qd <= (RAT_BOUND as u128) {
        assert(qd >= 1) by (nonlinear_arith)
            requires
                du as int == (g as int) * (qd as int),
                du >= 1,
                g >= 1,
        ;
        let num: i64 = if neg {
            -(qn as i64)
        } else {
            qn as i64
        };
        let q = Rat { num, den: qd as i64 };
        proof {
            lemma_norm_value(n as int, d as int, gi, qn as int, qd as int, q@.n);
            assert((qn as int) * gi == gi * (qn as int)) by (nonlinear_arith);
            assert((qd as int) * gi == gi * (qd as int)) by (nonlinear_arith);
            if n >= 0 {
                lemma_fundamental_div_mod_converse(n as int, gi, qn as int, 0);
            } else {
                assert((-(qn as int)) * gi == -(gi * (qn as int))) by (nonlinear_arith);
                lemma_fundamental_div_mod_converse(n as int, gi, -(qn as int), 0);
            }
            lemma_fundamental_div_mod_converse(d as int, gi, qd as int, 0);
        }
        Some(q)
    } else {
        proof {
            lemma_norm_large(n as int, d as int, gi, qn as int, qd as int);
        }
        None
    }
}

/// The narrowed pair denotes the same rational, and within bounds the
/// success condition [`norm_fits`] holds.
proof fn lemma_norm_value(n: int, d: int, g: int, qn: int, qd: int, num: int)
    requires
        d > 0,
        g > 0,
        (if n >= 0 { n } else { -n }) == g * qn,
        d == g * qd,
        num == (if n >= 0 { qn } else { -qn }),
        0 <= qn <= RAT_BOUND,
        1 <= qd <= RAT_BOUND,
    ensures
        num * d == n * qd,
        -(RAT_BOUND * g) <= n <= RAT_BOUND * g,
        d <= RAT_BOUND * g,
{
    assert(num * d == n * qd) by (nonlinear_arith)
        requires
            (if n >= 0 { n } else { -n }) == g * qn,
            d == g * qd,
            num == (if n >= 0 { qn } else { -qn }),
    ;
    assert(-(RAT_BOUND * g) <= n <= RAT_BOUND * g && d <= RAT_BOUND * g) by (nonlinear_arith)
        requires
            (if n >= 0 { n } else { -n }) == g * qn,
            d == g * qd,
            0 <= qn <= RAT_BOUND,
            1 <= qd <= RAT_BOUND,
            g > 0,
    ;
}

/// When a reduced component exceeds the bounds, [`norm_fits`] fails.
proof fn lemma_norm_large(n: int, d: int, g: int, qn: int, qd: int)
    requires
        d > 0,
        g > 0,
        (if n >= 0 { n } else { -n }) == g * qn,
        d == g * qd,
        qn > RAT_BOUND || qd > RAT_BOUND,
    ensures
        !(n <= RAT_BOUND * g && -(RAT_BOUND * g) <= n && d <= RAT_BOUND * g),
{
    if qn > RAT_BOUND {
        assert(!(n <= RAT_BOUND * g && -(RAT_BOUND * g) <= n)) by (nonlinear_arith)
            requires
                (if n >= 0 { n } else { -n }) == g * qn,
                qn > RAT_BOUND,
                g > 0,
        ;
    } else {
        assert(!(d <= RAT_BOUND * g)) by (nonlinear_arith)
            requires
                d == g * qd,
                qd > RAT_BOUND,
                g > 0,
        ;
    }
}

} // verus!
