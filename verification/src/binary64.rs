//! Double-precision numbers held as their IEEE 754 bit patterns, with the
//! arithmetic that prices and multipliers need carried out on integers.
//!
//! Every operation is correctly rounded: its result is the double closest to
//! the exact mathematical result, and of two equally close ones the double
//! whose last fraction bit is zero.
use vstd::arithmetic::div_mod::{lemma_basic_div, lemma_div_by_multiple,
    lemma_div_multiples_vanish_quotient};
use vstd::arithmetic::power2::{lemma2_to64, lemma2_to64_rest, lemma_pow2_adds, lemma_pow2_pos,
    lemma_pow2_strictly_increases, lemma_pow2_unfold, pow2};
use vstd::bits::lemma_u64_shl_is_mul;
use vstd::prelude::*;

verus! {

/// Number of fractions per exponent, `2^52`.
pub const FRACTIONS: u64 = 0x0010_0000_0000_0000;

/// Bit pattern of positive infinity: every smaller pattern is a finite number
/// with a clear sign bit.
pub const INFINITY_BITS: u64 = 0x7FF0_0000_0000_0000;

/// A double-precision number, by its bit pattern.
#[derive(Clone, Copy, Debug, PartialEq, Eq, Structural)]
pub struct Binary64 {
    pub bits: u64,
}

impl Binary64 {
    /// A finite number that is not negative: neither an infinity, nor a NaN,
    /// nor a pattern with the sign bit set.
    pub open spec fn is_magnitude(self) -> bool {
        self.bits < INFINITY_BITS
    }

    pub open spec fn exponent(self) -> nat {
        (self.bits / FRACTIONS) as nat
    }

    pub open spec fn fraction(self) -> nat {
        (self.bits % FRACTIONS) as nat
    }

    /// The value of a magnitude in units of `2^-1074`, the smallest positive
    /// double, of which every finite double is a whole multiple.
    pub open spec fn units(self) -> nat {
        if self.exponent() == 0 {
            self.fraction()
        } else {
            (FRACTIONS + self.fraction()) as nat * pow2((self.exponent() - 1) as nat)
        }
    }

    /// A magnitude with a full significand: not zero and not subnormal.
    pub open spec fn is_normal(self) -> bool {
        self.is_magnitude() && self.exponent() >= 1
    }

    /// The whole number that is left of a magnitude without its fraction.
    pub open spec fn whole(self) -> nat {
        self.units() / pow2(1074)
    }

    /// `low <= self <= high`, which no negative number, infinity or NaN meets.
    pub open spec fn lies_within(self, low: Binary64, high: Binary64) -> bool {
        self.is_magnitude() && low.units() <= self.units() <= high.units()
    }

    /// How far this magnitude lies from `num / den` units, times `den`.
    pub open spec fn distance(self, num: int, den: int) -> int {
        if self.units() * den >= num {
            self.units() * den - num
        } else {
            num - self.units() * den
        }
    }

    /// This is the double closest to `num / den` units; if another one is as
    /// close, this is the one with an even pattern.
    pub open spec fn is_nearest(self, num: int, den: int) -> bool {
        &&& self.is_magnitude()
        &&& forall|other: Binary64| #[trigger]
            other.is_magnitude() ==> self.distance(num, den) <= other.distance(num, den)
        &&& forall|other: Binary64| #[trigger]
            other.is_magnitude() && other != self && self.distance(num, den) == other.distance(
                num,
                den,
            ) ==> self.bits % 2 == 0
    }
}

/// The double closest to `num / den` units, ties going to the even pattern.
pub open spec fn nearest(num: int, den: int) -> Binary64 {
    choose|b: Binary64| b.is_nearest(num, den)
}

/// Patterns of magnitudes are ordered as their values are.
pub proof fn lemma_units_increase(a: Binary64, b: Binary64)
    requires
        a.bits < b.bits,
        b.is_magnitude(),
    ensures
        a.units() < b.units(),
{
    let ea = a.exponent();
    let eb = b.exponent();
    let fa = a.fraction();
    let fb = b.fraction();
    assert(ea <= eb);
    if ea == eb {
        if ea > 0 {
            let p = pow2((ea - 1) as nat);
            lemma_pow2_pos((ea - 1) as nat);
            assert((FRACTIONS + fa) * p < (FRACTIONS + fb) * p) by (nonlinear_arith)
                requires
                    fa < fb,
                    p > 0,
            ;
        }
    } else {
        let p = pow2((eb - 1) as nat);
        lemma_pow2_pos((eb - 1) as nat);
        assert(FRACTIONS * p <= (FRACTIONS + fb) * p) by (nonlinear_arith)
            requires
                p > 0,
                fb >= 0,
        ;
        if ea == 0 {
            assert(FRACTIONS <= FRACTIONS * p) by (nonlinear_arith)
                requires
                    p > 0,
            ;
        } else {
            let s = pow2((ea - 1) as nat);
            lemma_pow2_pos((ea - 1) as nat);
            lemma_pow2_unfold(ea);
            if ea < eb - 1 {
                lemma_pow2_strictly_increases(ea, (eb - 1) as nat);
            }
            assert((FRACTIONS + fa) * s < FRACTIONS * p) by (nonlinear_arith)
                requires
                    fa < FRACTIONS,
                    2 * s <= p,
                    s > 0,
            ;
        }
    }
}

/// Order of patterns and order of values, both ways round.
pub proof fn lemma_units_ordered(a: Binary64, b: Binary64)
    requires
        a.is_magnitude(),
        b.is_magnitude(),
    ensures
        a.bits < b.bits <==> a.units() < b.units(),
        a.bits <= b.bits <==> a.units() <= b.units(),
        a == b <==> a.units() == b.units(),
{
    if a.bits < b.bits {
        lemma_units_increase(a, b);
    }
    if b.bits < a.bits {
        lemma_units_increase(b, a);
    }
}

/// The number with significand `q` and biased exponent `e` has value
/// `q * 2^(e-1)`; `q` may run one past the largest significand, which gives
/// the first number of the next exponent.
pub proof fn lemma_pack(q: int, e: int)
    requires
        FRACTIONS <= q <= 2 * FRACTIONS,
        1 <= e <= 2045,
    ensures
        0 <= e * FRACTIONS + (q - FRACTIONS) < INFINITY_BITS,
        ({
            let b = Binary64 { bits: (e * FRACTIONS + (q - FRACTIONS)) as u64 };
            &&& b.is_magnitude()
            &&& b.units() == q * pow2((e - 1) as nat)
            &&& b.bits % 2 == q % 2
        }),
{
    let b = Binary64 { bits: (e * FRACTIONS + (q - FRACTIONS)) as u64 };
    if q == 2 * FRACTIONS {
        assert(b.exponent() == e + 1);
        assert(b.fraction() == 0);
        lemma_pow2_unfold(e as nat);
        let p = pow2((e - 1) as nat);
        assert(FRACTIONS * (2 * p) == q * p) by (nonlinear_arith)
            requires
                q == 2 * FRACTIONS,
        ;
    } else {
        assert(b.exponent() == e);
        assert(b.fraction() == q - FRACTIONS);
    }
}

/// Rounding `q + r/d` to an integer, half to even, rounds
/// `(q + r/d) * 2^(e-1)` units to the nearest double.
pub proof fn lemma_round(q: int, r: int, d: int, e: int)
    requires
        FRACTIONS <= q < 2 * FRACTIONS,
        0 <= r < d,
        1 <= e <= 2045,
    ensures
        0 <= e * FRACTIONS + (q - FRACTIONS) < INFINITY_BITS - 1,
        ({
            let low = Binary64 { bits: (e * FRACTIONS + (q - FRACTIONS)) as u64 };
            let high = Binary64 { bits: (e * FRACTIONS + (q + 1 - FRACTIONS)) as u64 };
            let num = (q * d + r) * pow2((e - 1) as nat);
            &&& 2 * r < d || (2 * r == d && q % 2 == 0) ==> low.is_nearest(num, d)
            &&& 2 * r > d || (2 * r == d && q % 2 == 1) ==> high.is_nearest(num, d)
        }),
{
    lemma_pack(q, e);
    lemma_pack(q + 1, e);
    let low = Binary64 { bits: (e * FRACTIONS + (q - FRACTIONS)) as u64 };
    let high = Binary64 { bits: (e * FRACTIONS + (q + 1 - FRACTIONS)) as u64 };
    let p = pow2((e - 1) as nat) as int;
    lemma_pow2_pos((e - 1) as nat);
    let num = (q * d + r) * p;
    assert(num == (q * p) * d + r * p) by (nonlinear_arith)
        requires
            num == (q * d + r) * p,
    ;
    assert(((q + 1) * p) * d - num == (d - r) * p) by (nonlinear_arith)
        requires
            num == (q * d + r) * p,
    ;
    assert(0 <= r * p) by (nonlinear_arith)
        requires
            0 <= r,
            0 < p,
    ;
    assert(0 < (d - r) * p) by (nonlinear_arith)
        requires
            r < d,
            0 < p,
    ;
    assert(low.distance(num, d) == r * p);
    assert(high.distance(num, d) == (d - r) * p);
    assert forall|other: Binary64| #[trigger] other.is_magnitude() implies {
        &&& other.bits < low.bits ==> other.distance(num, d) > r * p
        &&& other.bits > high.bits ==> other.distance(num, d) > (d - r) * p
    } by {
        let u = other.units() as int;
        if other.bits < low.bits {
            lemma_units_increase(other, low);
            assert(u * d < (q * p) * d) by (nonlinear_arith)
                requires
                    u < q * p,
                    0 < d,
            ;
        }
        if other.bits > high.bits {
            lemma_units_increase(high, other);
            assert(u * d > ((q + 1) * p) * d) by (nonlinear_arith)
                requires
                    u > (q + 1) * p,
                    0 < d,
            ;
        }
    }
    assert(2 * r < d ==> r * p < (d - r) * p) by (nonlinear_arith)
        requires
            0 < p,
    ;
    assert(2 * r > d ==> r * p > (d - r) * p) by (nonlinear_arith)
        requires
            0 < p,
    ;
    assert(2 * r == d ==> r * p == (d - r) * p) by (nonlinear_arith);
    assert forall|other: Binary64| #[trigger] other.is_magnitude() implies other.bits < low.bits
        || other == low || other == high || other.bits > high.bits by {}
}

/// Between two equally close doubles that both have even patterns lies a
/// closer one.
proof fn lemma_even_tie(a: Binary64, b: Binary64, num: int, den: int) -> (c: Binary64)
    requires
        b.is_magnitude(),
        a.bits < b.bits,
        a.bits % 2 == 0,
        b.bits % 2 == 0,
        a.distance(num, den) == b.distance(num, den),
        den > 0,
    ensures
        c.is_magnitude(),
        c.distance(num, den) < a.distance(num, den),
{
    let c = Binary64 { bits: (a.bits + 1) as u64 };
    lemma_units_increase(a, c);
    lemma_units_increase(c, b);
    let ua = a.units() as int;
    let ub = b.units() as int;
    let uc = c.units() as int;
    assert(ua * den < uc * den < ub * den) by (nonlinear_arith)
        requires
            ua < uc < ub,
            den > 0,
    ;
    c
}

/// At most one double is nearest to a given quotient.
pub proof fn lemma_nearest_unique(a: Binary64, b: Binary64, num: int, den: int)
    requires
        a.is_nearest(num, den),
        b.is_nearest(num, den),
        den > 0,
    ensures
        a == b,
{
    assert(a.distance(num, den) == b.distance(num, den));
    if a.bits < b.bits {
        let c = lemma_even_tie(a, b, num, den);
    }
    if b.bits < a.bits {
        let c = lemma_even_tie(b, a, num, den);
    }
}

/// Writing a quotient over another denominator does not change what is
/// nearest to it.
pub proof fn lemma_nearest_rescaled(num: int, den: int, k: int)
    requires
        num >= 0,
        den > 0,
        k > 0,
    ensures
        num * k >= 0,
        den * k > 0,
        nearest(num * k, den * k) == nearest(num, den),
        forall|b: Binary64| #[trigger] b.is_nearest(num * k, den * k) ==> b == nearest(num, den),
{
    assert(num * k >= 0) by (nonlinear_arith)
        requires
            num >= 0,
            k > 0,
    ;
    assert(den * k > 0) by (nonlinear_arith)
        requires
            den > 0,
            k > 0,
    ;
    lemma_nearest_exists(num, den);
    lemma_nearest_exists(num * k, den * k);
    let b = nearest(num * k, den * k);
    assert forall|c: Binary64| #[trigger] c.is_magnitude() implies c.distance(num * k, den * k)
        == c.distance(num, den) * k by {
        let u = c.units() as int;
        assert(u * (den * k) == (u * den) * k) by (nonlinear_arith);
        assert((u * den - num) * k == (u * den) * k - num * k) by (nonlinear_arith);
        assert((num - u * den) * k == num * k - (u * den) * k) by (nonlinear_arith);
        assert(u * den >= num <==> (u * den) * k >= num * k) by (nonlinear_arith)
            requires
                k > 0,
        ;
    }
    let x = b.distance(num, den);
    assert forall|c: Binary64| #[trigger] c.is_magnitude() implies x <= c.distance(num, den) by {
        let y = c.distance(num, den);
        assert(b.distance(num * k, den * k) <= c.distance(num * k, den * k));
        assert(x <= y) by (nonlinear_arith)
            requires
                x * k <= y * k,
                k > 0,
        ;
    }
    assert(b.is_nearest(num, den));
    lemma_nearest_unique(b, nearest(num, den), num, den);
    assert forall|c: Binary64| #[trigger] c.is_nearest(num * k, den * k) implies c == b by {
        lemma_nearest_unique(c, b, num * k, den * k);
    }
}

/// The largest double not above `num / den` units, sought from `top` down.
proof fn lemma_floor_exists(top: Binary64, num: int, den: int) -> (low: Binary64)
    requires
        top.is_magnitude(),
        num >= 0,
        den > 0,
    ensures
        low.bits <= top.bits,
        low.units() * den <= num,
        forall|b: Binary64| #[trigger]
            b.is_magnitude() && low.bits < b.bits <= top.bits ==> b.units() * den > num,
    decreases top.bits,
{
    if top.units() * den <= num {
        top
    } else if top.bits == 0 {
        assert(top.units() == 0);
        top
    } else {
        let below = Binary64 { bits: (top.bits - 1) as u64 };
        let low = lemma_floor_exists(below, num, den);
        assert forall|b: Binary64| #[trigger]
            b.is_magnitude() && low.bits < b.bits <= top.bits implies b.units() * den > num by {
            if b.bits <= below.bits {
            } else {
                assert(b == top);
            }
        }
        low
    }
}

/// Some double is nearest to every quotient that is not negative.
pub proof fn lemma_nearest_exists(num: int, den: int)
    requires
        num >= 0,
        den > 0,
    ensures
        nearest(num, den).is_nearest(num, den),
{
    let top = Binary64 { bits: (INFINITY_BITS - 1) as u64 };
    let low = lemma_floor_exists(top, num, den);
    assert forall|b: Binary64| #[trigger] b.is_magnitude() && b.bits < low.bits implies b.distance(
        num,
        den,
    ) > low.distance(num, den) by {
        lemma_units_increase(b, low);
        let ub = b.units() as int;
        let ul = low.units() as int;
        assert(ub * den < ul * den) by (nonlinear_arith)
            requires
                ub < ul,
                den > 0,
        ;
    }
    if low == top {
        assert(low.is_nearest(num, den));
    } else {
        let high = Binary64 { bits: (low.bits + 1) as u64 };
        assert(high.is_magnitude());
        assert forall|b: Binary64| #[trigger]
            b.is_magnitude() && b.bits > high.bits implies b.distance(num, den) > high.distance(
            num,
            den,
        ) by {
            lemma_units_increase(high, b);
            let ub = b.units() as int;
            let uh = high.units() as int;
            assert(ub * den > uh * den) by (nonlinear_arith)
                requires
                    ub > uh,
                    den > 0,
            ;
        }
        assert forall|b: Binary64| #[trigger] b.is_magnitude() implies b.bits < low.bits || b
            == low || b == high || b.bits > high.bits by {}
        if low.distance(num, den) < high.distance(num, den) || (low.distance(num, den)
            == high.distance(num, den) && low.bits % 2 == 0) {
            assert(low.is_nearest(num, den));
        } else {
            assert(high.is_nearest(num, den));
        }
    }
}

/// Rounding keeps order.
pub proof fn lemma_nearest_monotonic(num1: int, den1: int, num2: int, den2: int)
    requires
        0 <= num1,
        0 <= num2,
        den1 > 0,
        den2 > 0,
        num1 * den2 <= num2 * den1,
    ensures
        nearest(num1, den1).bits <= nearest(num2, den2).bits,
        nearest(num1, den1).units() <= nearest(num2, den2).units(),
{
    lemma_nearest_exists(num1, den1);
    lemma_nearest_exists(num2, den2);
    let a = nearest(num1, den1);
    let b = nearest(num2, den2);
    if b.bits < a.bits {
        // `b` is at least as close to the second quotient, `a` to the first:
        // with the first quotient not above the second, both are ties.
        lemma_units_increase(b, a);
        let ua = a.units() as int;
        let ub = b.units() as int;
        assert(b.distance(num1, den1) >= a.distance(num1, den1));
        assert(a.distance(num2, den2) >= b.distance(num2, den2));
        assert(ub * den1 < ua * den1 && ub * den2 < ua * den2) by (nonlinear_arith)
            requires
                ub < ua,
                den1 > 0,
                den2 > 0,
        ;
        assert(2 * num1 >= (ua + ub) * den1) by {
            assert((ua + ub) * den1 == ua * den1 + ub * den1) by (nonlinear_arith);
        }
        assert(2 * num2 <= (ua + ub) * den2) by {
            assert((ua + ub) * den2 == ua * den2 + ub * den2) by (nonlinear_arith);
        }
        let m = ua + ub;
        assert(2 * (num1 * den2) >= (m * den1) * den2) by (nonlinear_arith)
            requires
                2 * num1 >= m * den1,
                den2 > 0,
        ;
        assert(2 * (num2 * den1) <= (m * den2) * den1) by (nonlinear_arith)
            requires
                2 * num2 <= m * den2,
                den1 > 0,
        ;
        assert((m * den1) * den2 == (m * den2) * den1) by (nonlinear_arith);
        assert(2 * num1 == m * den1) by (nonlinear_arith)
            requires
                2 * (num1 * den2) == (m * den1) * den2,
                den2 > 0,
        ;
        assert(2 * num2 == m * den2) by (nonlinear_arith)
            requires
                2 * (num2 * den1) == (m * den2) * den1,
                den1 > 0,
        ;
        assert(m * den1 == ua * den1 + ub * den1) by (nonlinear_arith)
            requires
                m == ua + ub,
        ;
        assert(m * den2 == ua * den2 + ub * den2) by (nonlinear_arith)
            requires
                m == ua + ub,
        ;
        assert(a.distance(num1, den1) == b.distance(num1, den1));
        assert(a.distance(num2, den2) == b.distance(num2, den2));
        assert(a.bits % 2 == 0 && b.bits % 2 == 0);
        let c = lemma_even_tie(b, a, num1, den1);
        assert(false);
    }
    lemma_units_ordered(a, b);
}

/// A double is nearest to its own value.
pub proof fn lemma_nearest_exact(b: Binary64)
    requires
        b.is_magnitude(),
    ensures
        nearest(b.units() as int, 1) == b,
{
    assert forall|c: Binary64| #[trigger] c.is_magnitude() && c != b implies c.distance(
        b.units() as int,
        1,
    ) > 0 by {
        lemma_units_ordered(b, c);
    }
    assert(b.is_nearest(b.units() as int, 1));
    lemma_nearest_unique(b, nearest(b.units() as int, 1), b.units() as int, 1);
}

/// What lies between two doubles is rounded to a double between them.
pub proof fn lemma_nearest_between(num: int, den: int, low: Binary64, high: Binary64)
    requires
        0 <= num,
        den > 0,
        low.is_magnitude(),
        high.is_magnitude(),
        low.units() * den <= num <= high.units() * den,
    ensures
        nearest(num, den).is_magnitude(),
        low.bits <= nearest(num, den).bits <= high.bits,
        low.units() <= nearest(num, den).units() <= high.units(),
{
    lemma_nearest_exact(low);
    lemma_nearest_exact(high);
    lemma_nearest_exists(num, den);
    lemma_nearest_monotonic(low.units() as int, 1, num, den);
    lemma_nearest_monotonic(num, den, high.units() as int, 1);
}

/// A normal double is its significand over a power of two.
pub proof fn lemma_value(b: Binary64, significand: int, scale: int)
    requires
        b.is_normal(),
        b.exponent() <= 1075,
        significand == FRACTIONS + b.fraction(),
        scale == pow2((1075 - b.exponent()) as nat),
    ensures
        b.units() * scale == significand * pow2(1074),
{
    let e = b.exponent();
    let p = pow2((e - 1) as nat) as int;
    lemma_pow2_adds((e - 1) as nat, (1075 - e) as nat);
    assert((significand * p) * scale == significand * (p * scale)) by (nonlinear_arith);
}

/// A double is nearest to what lies less than half a step away from it.
pub proof fn lemma_nearest_near(b: Binary64, num: int, den: int)
    requires
        b.is_normal(),
        1 <= b.exponent() <= 2045,
        num >= 0,
        den > 0,
        b.fraction() > 0 || b.distance(num, den) == 0,
        2 * b.distance(num, den) < pow2((b.exponent() - 1) as nat) * den,
    ensures
        nearest(num, den) == b,
{
    let e = b.exponent();
    let q = (FRACTIONS + b.fraction()) as int;
    let p = pow2((e - 1) as nat) as int;
    let u = b.units() as int;
    let high = Binary64 { bits: (b.bits + 1) as u64 };
    lemma_pack(q + 1, e as int);
    assert(b.bits + 1 == e * FRACTIONS + (q + 1 - FRACTIONS));
    assert((q + 1) * p == q * p + p) by (nonlinear_arith);
    assert((u + p) * den == u * den + p * den) by (nonlinear_arith);
    if b.fraction() > 0 {
        let low = Binary64 { bits: (b.bits - 1) as u64 };
        lemma_pack(q - 1, e as int);
        assert(b.bits - 1 == e * FRACTIONS + (q - 1 - FRACTIONS));
        assert((q - 1) * p == q * p - p) by (nonlinear_arith);
        assert((u - p) * den == u * den - p * den) by (nonlinear_arith);
    }
    assert forall|c: Binary64| #[trigger] c.is_magnitude() && c != b implies c.distance(num, den)
        > b.distance(num, den) by {
        let v = c.units() as int;
        if c.bits > b.bits {
            lemma_units_ordered(high, c);
            assert(v * den >= (u + p) * den) by (nonlinear_arith)
                requires
                    v >= u + p,
                    den > 0,
            ;
        } else if b.fraction() > 0 {
            lemma_units_ordered(c, Binary64 { bits: (b.bits - 1) as u64 });
            assert(v * den <= (u - p) * den) by (nonlinear_arith)
                requires
                    v <= u - p,
                    den > 0,
            ;
        } else {
            lemma_units_increase(c, b);
            assert(v * den < u * den) by (nonlinear_arith)
                requires
                    v < u,
                    den > 0,
            ;
        }
    }
    assert(b.is_nearest(num, den));
    lemma_nearest_exists(num, den);
    lemma_nearest_unique(b, nearest(num, den), num, den);
}

/// Rounding errs by at most the `2^53`rd part of its result.
pub proof fn lemma_nearest_error(num: int, den: int)
    requires
        num >= 0,
        den > 0,
        nearest(num, den).is_magnitude(),
        2 <= nearest(num, den).exponent() <= 2045,
    ensures
        0x20_0000_0000_0000 * nearest(num, den).distance(num, den) <= nearest(num, den).units()
            * den,
{
    let b = nearest(num, den);
    let e = b.exponent();
    let q = (FRACTIONS + b.fraction()) as int;
    let p = pow2((e - 1) as nat) as int;
    let h = pow2((e - 2) as nat) as int;
    let u = b.units() as int;
    lemma_nearest_exists(num, den);
    lemma_pow2_pos((e - 1) as nat);
    lemma_pow2_pos((e - 2) as nat);
    lemma_pow2_unfold((e - 1) as nat);
    let high = Binary64 { bits: (b.bits + 1) as u64 };
    lemma_pack(q + 1, e as int);
    assert(b.bits + 1 == e * FRACTIONS + (q + 1 - FRACTIONS));
    assert((q + 1) * p == q * p + p) by (nonlinear_arith);
    assert((u + p) * den == u * den + p * den) by (nonlinear_arith);
    assert(b.distance(num, den) <= high.distance(num, den));
    let low = Binary64 { bits: (b.bits - 1) as u64 };
    if b.fraction() > 0 {
        lemma_pack(q - 1, e as int);
        assert(b.bits - 1 == e * FRACTIONS + (q - 1 - FRACTIONS));
        assert((q - 1) * p == q * p - p) by (nonlinear_arith);
    } else {
        lemma_pack(2 * FRACTIONS - 1, e - 1);
        assert(b.bits - 1 == (e - 1) * FRACTIONS + (2 * FRACTIONS - 1 - FRACTIONS));
        assert((2 * FRACTIONS - 1) * h == FRACTIONS * (2 * h) - h) by (nonlinear_arith);
    }
    let below = u - low.units();
    assert((u - below) * den == u * den - below * den) by (nonlinear_arith);
    assert(0 < below * den <= p * den) by (nonlinear_arith)
        requires
            0 < below <= p,
            den > 0,
    ;
    assert(b.distance(num, den) <= low.distance(num, den));
    assert(2 * b.distance(num, den) <= p * den);
    assert(FRACTIONS * (p * den) <= u * den) by (nonlinear_arith)
        requires
            u == q * p,
            q >= FRACTIONS,
            p > 0,
            den > 0,
    ;
}

/// Two to the power `k`.
fn power_of_two(k: u64) -> (r: u64)
    requires
        k < 64,
    ensures
        r == pow2(k as nat),
{
    proof {
        lemma2_to64();
        lemma2_to64_rest();
        lemma_u64_shl_is_mul(1, k);
    }
    1u64 << k
}

/// The double nearest to `n / d * 2^(e-1)` units.
fn round(n: u128, d: u128, e: u64) -> (r: Binary64)
    requires
        0 < d,
        d * FRACTIONS <= n,
        n < 0x8000_0000_0000_0000_0000_0000_0000_0000,
        1 <= e <= 1900,
    ensures
        r == nearest(n * pow2((e - 1) as nat), d as int),
{
    let mut step: u128 = d;
    let mut exponent: u64 = e;
    proof {
        lemma2_to64();
        assert(step == d * pow2(0));
        assert(n / step >= FRACTIONS) by (nonlinear_arith)
            requires
                step * FRACTIONS <= n,
                0 < step,
        ;
    }
    while n / step >= 2 * (FRACTIONS as u128)
        invariant
            0 < d,
            0 < step,
            step * FRACTIONS <= n,
            n < 0x8000_0000_0000_0000_0000_0000_0000_0000,
            1 <= e <= exponent <= 1975,
            e <= 1900,
            step == d * pow2((exponent - e) as nat),
        decreases n - step,
    {
        proof {
            let t = (exponent - e) as nat;
            let p = pow2(t) as int;
            lemma_pow2_unfold(t + 1);
            assert(2 * step * FRACTIONS <= n) by (nonlinear_arith)
                requires
                    n / step >= 2 * FRACTIONS,
                    0 < step,
            ;
            assert(d * (2 * p) == 2 * (d * p)) by (nonlinear_arith);
            assert(p <= step) by (nonlinear_arith)
                requires
                    step == d * p,
                    d >= 1,
                    p >= 0,
            ;
            if t >= 75 {
                lemma2_to64_rest();
                lemma_pow2_adds(64, 11);
                lemma2_to64();
                if t > 75 {
                    lemma_pow2_strictly_increases(75, t);
                }
                assert(false);
            }
        }
        step = step * 2;
        exponent = exponent + 1;
    }
    let q: u128 = n / step;
    let r: u128 = n % step;
    proof {
        assert(n / step >= FRACTIONS) by (nonlinear_arith)
            requires
                step * FRACTIONS <= n,
                0 < step,
        ;
        assert(n == q * step + r && 0 <= r < step) by (nonlinear_arith)
            requires
                q == n / step,
                r == n % step,
                0 < step,
        ;
        lemma_round(q as int, r as int, step as int, exponent as int);
        let t = (exponent - e) as nat;
        let p = pow2(t) as int;
        let num = n * pow2((e - 1) as nat);
        lemma_pow2_pos(t);
        lemma_pow2_adds((e - 1) as nat, t);
        assert(n * pow2((exponent - 1) as nat) == num * p) by (nonlinear_arith)
            requires
                num == n * pow2((e - 1) as nat),
                pow2((exponent - 1) as nat) == pow2((e - 1) as nat) * p,
        ;
        lemma_nearest_rescaled(num, d as int, p);
    }
    let low: u64 = exponent * FRACTIONS + (q as u64 - FRACTIONS);
    if 2 * r < step || (2 * r == step && q % 2 == 0) {
        Binary64 { bits: low }
    } else {
        Binary64 { bits: low + 1 }
    }
}

impl Binary64 {
    fn significand(self) -> (r: u64)
        requires
            self.is_normal(),
        ensures
            r == FRACTIONS + self.fraction(),
    {
        FRACTIONS + self.bits % FRACTIONS
    }

    /// Decides whether `low <= self <= high`.
    pub(crate) fn is_within(self, low: Binary64, high: Binary64) -> (r: bool)
        requires
            low.is_magnitude(),
            high.is_magnitude(),
        ensures
            r == self.lies_within(low, high),
    {
        proof {
            if self.is_magnitude() {
                lemma_units_ordered(low, self);
                lemma_units_ordered(self, high);
            }
        }
        low.bits <= self.bits && self.bits <= high.bits
    }

    /// The rounded product with a whole number.
    pub(crate) fn times(self, factor: u64) -> (r: Binary64)
        requires
            self.is_normal(),
            self.exponent() <= 1900,
            factor > 0,
        ensures
            r == nearest(self.units() * factor, 1),
    {
        let significand: u64 = self.significand();
        proof {
            let s = significand as int;
            let p = pow2((self.exponent() - 1) as nat) as int;
            assert(FRACTIONS <= s * factor < 0x8000_0000_0000_0000_0000_0000_0000_0000)
                by (nonlinear_arith)
                requires
                    FRACTIONS <= s < 2 * FRACTIONS,
                    0 < factor <= u64::MAX,
            ;
            assert((s * factor) * p == (s * p) * factor) by (nonlinear_arith);
        }
        round(significand as u128 * factor as u128, 1, self.bits / FRACTIONS)
    }

    /// The rounded quotient.
    pub(crate) fn over(self, divisor: Binary64) -> (r: Binary64)
        requires
            self.is_normal(),
            divisor.is_normal(),
            1 <= self.exponent() + 1022 - divisor.exponent() <= 1900,
        ensures
            r == nearest((self.units() * pow2(1074)) as int, divisor.units() as int),
    {
        let a: u64 = self.significand();
        let b: u64 = divisor.significand();
        let ea: u64 = self.bits / FRACTIONS;
        let eb: u64 = divisor.bits / FRACTIONS;
        let shifted: u128 = a as u128 * (2 * FRACTIONS as u128);
        let e: u64 = ea + 1022 - eb;
        proof {
            lemma2_to64();
            lemma2_to64_rest();
            let pa = pow2((ea - 1) as nat);
            let pb = pow2((eb - 1) as nat);
            lemma_pow2_pos((eb - 1) as nat);
            // shifted * 2^(e-1) / b, widened by 2^(eb-1), is the quotient in units
            lemma_pow2_adds((e - 1) as nat, (eb - 1) as nat);
            lemma_pow2_adds((e + eb - 2) as nat, 53);
            lemma_pow2_adds((ea - 1) as nat, 1074);
            let pe = pow2((e - 1) as nat);
            let num = shifted * pe;
            assert(b * FRACTIONS <= shifted) by (nonlinear_arith)
                requires
                    b < 2 * FRACTIONS,
                    FRACTIONS <= a,
                    shifted == a * (2 * FRACTIONS),
            ;
            assert(num * pb == (a * pa) * pow2(1074)) by (nonlinear_arith)
                requires
                    num == shifted * pe,
                    shifted == a * (2 * FRACTIONS),
                    pow2(53) == 2 * FRACTIONS,
                    (pe * pb) * pow2(53) == pa * pow2(1074),
            ;
            assert(num >= 0) by (nonlinear_arith)
                requires
                    num == shifted * pe,
            ;
            lemma_nearest_rescaled(num, b as int, pb as int);
        }
        round(shifted, b as u128, e)
    }

    /// The rounded sum with a number that is not of a larger exponent.
    pub(crate) fn plus(self, other: Binary64) -> (r: Binary64)
        requires
            self.is_normal(),
            other.is_normal(),
            other.exponent() <= self.exponent() <= other.exponent() + 60,
            other.exponent() <= 1900,
        ensures
            r == nearest((self.units() + other.units()) as int, 1),
    {
        let a: u64 = self.significand();
        let b: u64 = other.significand();
        let ea: u64 = self.bits / FRACTIONS;
        let eb: u64 = other.bits / FRACTIONS;
        let scale: u64 = power_of_two(ea - eb);
        proof {
            let p = pow2((eb - 1) as nat);
            lemma_pow2_adds((ea - eb) as nat, (eb - 1) as nat);
            assert(0 <= a * scale < 0x4000_0000_0000_0000_0000_0000_0000_0000) by (nonlinear_arith)
                requires
                    a < 2 * FRACTIONS,
                    scale <= u64::MAX,
            ;
            assert((a * scale + b) * p == a * (scale * p) + b * p) by (nonlinear_arith);
        }
        round(a as u128 * scale as u128 + b as u128, 1, eb)
    }

    /// The whole number below, or `u64::MAX` where that does not fit.
    pub(crate) fn truncated(self) -> (r: u64)
        requires
            self.is_magnitude(),
        ensures
            r == (if self.whole() <= u64::MAX {
                self.whole()
            } else {
                u64::MAX as nat
            }),
    {
        let e: u64 = self.bits / FRACTIONS;
        proof {
            lemma2_to64();
            lemma2_to64_rest();
        }
        if e < 1023 {
            proof {
                let one = Binary64 { bits: (1023 * FRACTIONS) as u64 };
                lemma_units_increase(self, one);
                lemma_pow2_adds(52, 1022);
                lemma_basic_div(self.units() as int, pow2(1074) as int);
            }
            0
        } else if e <= 1075 {
            let k: u64 = 1075 - e;
            let divisor: u64 = power_of_two(k);
            proof {
                let s = (FRACTIONS + self.fraction()) as int;
                let p = pow2((e - 1) as nat) as int;
                lemma_pow2_pos((e - 1) as nat);
                lemma_pow2_pos(k as nat);
                lemma_pow2_adds((e - 1) as nat, k as nat);
                lemma_div_multiples_vanish_quotient(p, s, divisor as int);
                assert(p * s == s * p) by (nonlinear_arith);
                assert(s / divisor as int <= s) by (nonlinear_arith)
                    requires
                        s >= 0,
                        divisor >= 1,
                ;
            }
            self.significand() / divisor
        } else {
            proof {
                let s = (FRACTIONS + self.fraction()) as int;
                let q = pow2((e - 1075) as nat) as int;
                let p = pow2(1074) as int;
                lemma_pow2_pos(1074);
                lemma_pow2_adds((e - 1075) as nat, 1074);
                assert(s * (q * p) == (s * q) * p) by (nonlinear_arith);
                lemma_div_by_multiple(s * q, p);
                if e >= 1087 {
                    if e > 1087 {
                        lemma_pow2_strictly_increases(12, (e - 1075) as nat);
                    }
                    assert(s * q >= FRACTIONS * 4096) by (nonlinear_arith)
                        requires
                            s >= FRACTIONS,
                            q >= 4096,
                    ;
                } else {
                    if e < 1086 {
                        lemma_pow2_strictly_increases((e - 1075) as nat, 11);
                    }
                    assert(0 <= s * q < 2 * FRACTIONS * 2048) by (nonlinear_arith)
                        requires
                            0 <= s < 2 * FRACTIONS,
                            0 < q <= 2048,
                    ;
                }
            }
            if e >= 1087 {
                u64::MAX
            } else {
                self.significand() * power_of_two(e - 1075)
            }
        }
    }
}

} // verus!
