//! What numbers of three precisions are worth, and how one precision becomes another.
use crate::num::{Double, Half, Single};
use vstd::arithmetic::power2::*;
use vstd::prelude::*;

verus! {

/// What a bit pattern without its sign is worth, in units of the smallest number. Up to twice
/// the first normal pattern it is worth as much as it says, and from the first normal one on,
/// every exponent more doubles it.
pub proof fn law_magnitude(a: int, one: int)
    requires
        one > 1,
        a >= 0,
    ensures
        a < 2 * one ==> crate::num::magnitude(a, one) == a,
        a >= one ==> crate::num::magnitude(a + one, one) == 2 * crate::num::magnitude(a, one),
{
    lemma2_to64();
    let q = a / one;
    let r = a % one;
    vstd::arithmetic::div_mod::lemma_fundamental_div_mod(a, one);
    vstd::arithmetic::div_mod::lemma_div_pos_is_pos(a, one);
    assert(one * q == q * one) by (nonlinear_arith);
    if a < one {
        vstd::arithmetic::div_mod::lemma_fundamental_div_mod_converse(a, one, 0, a);
    } else {
        assert(q >= 1) by (nonlinear_arith)
            requires
                a == one * q + r,
                r < one,
                a >= one,
                one > 1,
        ;
        if a < 2 * one {
            vstd::arithmetic::div_mod::lemma_fundamental_div_mod_converse(a, one, 1, a - one);
            assert((one + (a - one)) * pow2(0) == a) by (nonlinear_arith)
                requires
                    pow2(0) == 1,
            ;
        }
        assert((q + 1) * one + r == a + one) by (nonlinear_arith)
            requires
                a == q * one + r,
        ;
        vstd::arithmetic::div_mod::lemma_fundamental_div_mod_converse(a + one, one, q + 1, r);
        let p = pow2((q - 1) as nat) as int;
        lemma_pow2_unfold(q as nat);
        assert((one + r) * (2 * p) == 2 * ((one + r) * p)) by (nonlinear_arith);
    }
}

/// The first bit of a number is its sign, and the others are its pattern; a double is finite below
/// the pattern of infinity, and its value is its magnitude with its sign.
pub proof fn law_sign(h: Half, s: Single, d: Double)
    ensures
        h.bits == h.abs() + (if h.negative() {
            0x8000int
        } else {
            0
        }),
        0 <= h.abs() < 0x8000,
        s.bits == s.abs() + (if s.negative() {
            0x8000_0000int
        } else {
            0
        }),
        0 <= s.abs() < 0x8000_0000,
        d.bits == d.abs() + (if d.negative() {
            0x8000_0000_0000_0000int
        } else {
            0
        }),
        0 <= d.abs() < 0x8000_0000_0000_0000,
        d.finite() <==> d.abs() < 0x7ff0_0000_0000_0000,
        h.magnitude() == crate::num::magnitude(h.abs(), 0x400),
        s.magnitude() == crate::num::magnitude(s.abs(), 0x80_0000),
        d.magnitude() == crate::num::magnitude(d.abs(), 0x10_0000_0000_0000),
        d.negative() ==> d.value() == -d.magnitude(),
        !d.negative() ==> d.value() == d.magnitude(),
{
}

/// A half keeps its sign and its value in single precision: the units of single precision are
/// smaller by two to the hundred and twenty-fifth. Infinity stays infinity, and a NaN becomes a
/// quiet NaN with the same further bits.
pub proof fn law_half_to_single(h: Half, r: Single)
    requires
        h.widens_to(r),
    ensures
        h.widened() == r,
        h.negative() == r.negative(),
        h.abs() < 0x7c00 ==> r.abs() < 0x7f80_0000 && r.magnitude() == h.magnitude() * pow2(125),
        h.abs() == 0x7c00 ==> r.abs() == 0x7f80_0000,
        h.abs() > 0x7c00 ==> r.abs() == 0x7fc0_0000 + h.abs() % 0x200 * 0x2000,
{
    h.lemma_widened(r);
}

/// A single-precision number keeps its sign and its value in double precision: the units of double
/// precision are smaller by two to the nine hundred and twenty-fifth. Infinity stays infinity, and
/// a NaN becomes a quiet NaN with the same further bits.
pub proof fn law_single_to_double(s: Single, r: Double)
    requires
        s.widens_to(r),
    ensures
        s.widened() == r,
        s.negative() == r.negative(),
        s.abs() < 0x7f80_0000 ==> r.abs() < 0x7ff0_0000_0000_0000 && r.magnitude() == s.magnitude()
            * pow2(925),
        s.abs() == 0x7f80_0000 ==> r.abs() == 0x7ff0_0000_0000_0000,
        s.abs() > 0x7f80_0000 ==> r.abs() == 0x7ff8_0000_0000_0000 + s.abs() % 0x40_0000
            * 0x2000_0000,
{
    s.lemma_widened(r);
}

/// A double keeps its sign in single precision. Infinity stays infinity, and a NaN becomes a quiet
/// NaN with the first of its further bits.
pub proof fn law_double_to_single(d: Double, r: Single)
    requires
        d.narrows_to(r),
    ensures
        d.narrowed() == r,
        d.negative() == r.negative(),
        d.abs() == 0x7ff0_0000_0000_0000 ==> r.abs() == 0x7f80_0000,
        d.abs() > 0x7ff0_0000_0000_0000 ==> r.abs() == 0x7fc0_0000 + d.abs() % 0x8_0000_0000_0000
            / 0x2000_0000,
{
    d.lemma_narrowed(r);
    if d.abs() == crate::num::double_infinity() {
        lemma_infinity_stays(d, r);
    }
}

/// Infinity is beyond everything that rounds to less than infinity.
proof fn lemma_infinity_stays(d: Double, r: Single)
    requires
        d.narrows_to(r),
        d.abs() == crate::num::double_infinity(),
    ensures
        r.abs() == crate::num::single_infinity(),
{
    let one = crate::num::single_one();
    let top = crate::num::single_infinity();
    let unit = pow2(925) as int;
    lemma_pow2_pos(925);
    crate::num::lemma_infinity_covers();
    crate::num::lemma_nearest_top(d.magnitude(), one, top, unit);
    crate::num::lemma_nearest_unique(d.magnitude(), r.abs(), top, one, top, unit);
}

/// How far apart two magnitudes are.
pub open spec fn apart(x: int, y: int) -> int {
    if x >= y {
        x - y
    } else {
        y - x
    }
}

/// A double that is no NaN becomes the single-precision number nearest to it: no other pattern up
/// to infinity is nearer, and where one is as near, the pattern taken is even.
pub proof fn law_nearest_single(d: Double, r: Single, t: int)
    requires
        d.narrows_to(r),
        d.abs() <= 0x7ff0_0000_0000_0000,
        0 <= t <= 0x7f80_0000,
    ensures
        r.abs() <= 0x7f80_0000,
        apart(d.magnitude(), r.magnitude() * pow2(925)) <= apart(
            d.magnitude(),
            crate::num::magnitude(t, 0x80_0000) * pow2(925),
        ),
        t != r.abs() && apart(d.magnitude(), r.magnitude() * pow2(925)) == apart(
            d.magnitude(),
            crate::num::magnitude(t, 0x80_0000) * pow2(925),
        ) ==> r.abs() % 2 == 0,
{
    let unit = pow2(925) as int;
    let x = crate::num::magnitude(t, crate::num::single_one()) * unit;
    assert(crate::num::distance(d.magnitude(), x) == apart(d.magnitude(), x));
}

/// Rounding keeps the order: of two magnitudes, the one that is not larger does not become the
/// larger one.
pub proof fn law_rounding_keeps_order(a: Double, b: Double, x: Single, y: Single)
    requires
        a.narrows_to(x),
        b.narrows_to(y),
        a.abs() <= b.abs() <= crate::num::double_infinity(),
    ensures
        x.abs() <= y.abs(),
{
    let one = crate::num::single_one();
    let top = crate::num::single_infinity();
    let unit = pow2(925) as int;
    lemma_pow2_pos(925);
    if a.abs() < b.abs() {
        crate::num::lemma_magnitude_increases(a.abs(), b.abs(), crate::num::double_one());
    }
    let v = a.magnitude();
    let w = b.magnitude();
    if x.abs() > y.abs() {
        crate::num::lemma_magnitude_increases(y.abs(), x.abs(), one);
        let i = crate::num::magnitude(x.abs(), one);
        let j = crate::num::magnitude(y.abs(), one);
        assert(j * unit < i * unit) by (nonlinear_arith)
            requires
                j < i,
                unit > 0,
        ;
        assert(crate::num::distance(v, i * unit) <= crate::num::distance(v, j * unit));
        assert(crate::num::distance(w, j * unit) <= crate::num::distance(w, i * unit));
        assert(v == w);
        crate::num::lemma_nearest_unique(v, x.abs(), y.abs(), one, top, unit);
    }
}

/// Every magnitude has a nearest pattern, from any pattern on that is not worth more.
proof fn lemma_nearest_is_there(v: int, k: int) -> (r: int)
    requires
        0 <= k <= crate::num::single_infinity(),
        crate::num::magnitude(k, crate::num::single_one()) * pow2(925) <= v,
    ensures
        crate::num::is_nearest(
            v,
            r,
            crate::num::single_one(),
            crate::num::single_infinity(),
            pow2(925) as int,
        ),
    decreases crate::num::single_infinity() - k,
{
    let one = crate::num::single_one();
    let top = crate::num::single_infinity();
    let unit = pow2(925) as int;
    let low = crate::num::magnitude(k, one);
    lemma_pow2_pos(924);
    lemma_pow2_pos(925);
    if k == top {
        crate::num::lemma_nearest_top(v, one, top, unit);
        top
    } else {
        crate::num::lemma_magnitude_step(k, one);
        let gap = crate::num::gap(k, one);
        assert((low + gap) * unit == low * unit + gap * unit) by (nonlinear_arith);
        if (low + gap) * unit <= v {
            lemma_nearest_is_there(v, k + 1)
        } else {
            lemma_pow2_unfold(925);
            let half = gap * pow2(924);
            let rest = v - low * unit;
            let r = if rest > half || (rest == half && k % 2 == 1) {
                k + 1
            } else {
                k
            };
            assert(gap * unit == 2 * half * 1) by (nonlinear_arith)
                requires
                    unit == 2 * pow2(924),
                    half == gap * pow2(924),
            ;
            crate::num::lemma_nearest_between(v, k, r, rest, half, 1, one, top, unit);
            r
        }
    }
}

/// Every double becomes a single-precision number.
pub proof fn law_every_double_becomes_single(d: Double)
    ensures
        d.narrows_to(d.narrowed()),
{
    let sign = if d.negative() {
        0x8000_0000int
    } else {
        0
    };
    let abs = if d.abs() > crate::num::double_infinity() {
        0x7fc0_0000 + d.abs() % 0x8_0000_0000_0000 / 0x2000_0000
    } else {
        law_magnitude(0, crate::num::single_one());
        crate::num::lemma_magnitude_not_negative(d.abs(), crate::num::double_one());
        lemma_nearest_is_there(d.magnitude(), 0)
    };
    let r = Single { bits: (sign + abs) as u32 };
    assert(r.abs() == abs);
    assert(d.narrows_to(r));
}

/// Two numbers are equal exactly where neither is a NaN and they have the same bits or are both
/// zero, whatever the sign of zero.
pub proof fn law_equality(a: Double, b: Double, c: Single, d: Single, e: Half, f: Half)
    ensures
        a.equals(b) <==> a.abs() <= 0x7ff0_0000_0000_0000 && b.abs() <= 0x7ff0_0000_0000_0000 && (
        a.bits == b.bits || (a.abs() == 0 && b.abs() == 0)),
        c.equals(d) <==> c.abs() <= 0x7f80_0000 && d.abs() <= 0x7f80_0000 && (c.bits == d.bits || (
        c.abs() == 0 && d.abs() == 0)),
        e.equals(f) <==> e.abs() <= 0x7c00 && f.abs() <= 0x7c00 && (e.bits == f.bits || (e.abs()
            == 0 && f.abs() == 0)),
{
}

/// Two doubles are close exactly where both are finite and their difference is smaller than the
/// machine epsilon, by more than the half of a step that rounding would make up for. In units of
/// the smallest double the machine epsilon is two to the thousand and twenty-second.
pub proof fn law_close(a: Double, b: Double)
    ensures
        a.close_to(b) ==> a.finite() && b.finite(),
        a.finite() && b.finite() ==> (a.close_to(b) <==> a.value() - b.value() < pow2(1022) - pow2(
            968,
        ) && b.value() - a.value() < pow2(1022) - pow2(968)),
{
    if a.finite() && b.finite() {
        a.lemma_close_to(b);
    }
}

/// The order of times: a smaller number goes before a larger one, negative zero before zero,
/// negative NaNs before everything and the other NaNs behind everything; and two numbers share a
/// place only where their bits are the same.
pub proof fn law_order_of_times(a: Double, b: Double)
    ensures
        a.finite() && b.finite() && a.value() < b.value() ==> a.rank() < b.rank(),
        a.bits == 0x8000_0000_0000_0000 && b.bits == 0 ==> a.rank() < b.rank(),
        a.abs() > 0x7ff0_0000_0000_0000 && a.negative() && b.abs() <= 0x7ff0_0000_0000_0000
            ==> a.rank() < b.rank(),
        a.abs() > 0x7ff0_0000_0000_0000 && !a.negative() && b.abs() <= 0x7ff0_0000_0000_0000
            ==> b.rank() < a.rank(),
        a.negative() && !b.negative() ==> a.rank() < b.rank(),
        !a.negative() && !b.negative() ==> (a.rank() < b.rank() <==> a.bits < b.bits),
        a.negative() && b.negative() ==> (a.rank() < b.rank() <==> a.bits > b.bits),
        a.rank() == b.rank() <==> a.bits == b.bits,
        (crate::times::by_rank())(a, b) <==> a.rank() <= b.rank(),
{
    let one = crate::num::double_one();
    crate::num::lemma_magnitude_not_negative(a.abs(), one);
    crate::num::lemma_magnitude_not_negative(b.abs(), one);
    if a.abs() < b.abs() {
        crate::num::lemma_magnitude_increases(a.abs(), b.abs(), one);
    } else if b.abs() < a.abs() {
        crate::num::lemma_magnitude_increases(b.abs(), a.abs(), one);
    }
}

/// Bits are taken over: a number below two to the thirty-first stays, and from there on two to
/// the thirty-second is taken off.
pub proof fn law_reinterpreted(v: u32)
    ensures
        v < 0x8000_0000 ==> crate::value::reinterpreted(v) == v,
        v >= 0x8000_0000 ==> crate::value::reinterpreted(v) == v - 0x1_0000_0000,
{
}

} // verus!
