//! Binary floating-point numbers, held as their IEEE 754 bit patterns.
//!
//! A finite number is modelled by the integer that it is a multiple of, counted in units of the
//! smallest positive number of its format: 2^-24 for [`Half`], 2^-149 for [`Single`] and 2^-1074
//! for [`Double`].
use vstd::arithmetic::power2::*;
use vstd::prelude::*;

verus! {

/// A half-precision number: 1 sign bit, 5 exponent bits, 10 fraction bits.
#[derive(Clone, Copy, Debug)]
pub struct Half {
    pub bits: u16,
}

/// A single-precision number: 1 sign bit, 8 exponent bits, 23 fraction bits.
#[derive(Clone, Copy, Debug)]
pub struct Single {
    pub bits: u32,
}

/// A double-precision number: 1 sign bit, 11 exponent bits, 52 fraction bits.
#[derive(Clone, Copy, Debug)]
pub struct Double {
    pub bits: u64,
}

/// The magnitude of the number whose bits, without the sign, are `abs`, in a format whose fraction
/// field counts up to `one`. It is given for infinity too, as the power of two that would come
/// next after the largest finite number.
pub open spec fn magnitude(abs: int, one: int) -> int {
    if abs / one == 0 {
        abs % one
    } else {
        (one + abs % one) * pow2((abs / one - 1) as nat)
    }
}

/// One more than the largest fraction field of a [`Half`].
pub open spec fn half_one() -> int {
    0x400
}

/// One more than the largest fraction field of a [`Single`].
pub open spec fn single_one() -> int {
    0x80_0000
}

/// One more than the largest fraction field of a [`Double`].
pub open spec fn double_one() -> int {
    0x10_0000_0000_0000
}

/// The bits of infinity of a [`Half`].
pub open spec fn half_infinity() -> int {
    0x7c00
}

/// The bits of infinity of a [`Single`].
pub open spec fn single_infinity() -> int {
    0x7f80_0000
}

/// The bits of infinity of a [`Double`].
pub open spec fn double_infinity() -> int {
    0x7ff0_0000_0000_0000
}

/// The distance between two integers.
pub open spec fn distance(a: int, b: int) -> int {
    if a <= b {
        b - a
    } else {
        a - b
    }
}

/// Rounding to nearest, ties to even. `r` is, among the non-negative bit patterns up to the
/// infinity `top` of a format, the one whose magnitude, counted in units of `unit`, is nearest
/// to `v`; where two are equally near, `r` is the even one.
pub open spec fn is_nearest(v: int, r: int, one: int, top: int, unit: int) -> bool {
    &&& 0 <= r <= top
    &&& forall|t: int|
        0 <= t <= top ==> distance(v, magnitude(r, one) * unit) <= distance(
            v,
            #[trigger] magnitude(t, one) * unit,
        )
    &&& forall|t: int|
        0 <= t <= top && t != r && distance(v, #[trigger] magnitude(t, one) * unit) == distance(
            v,
            magnitude(r, one) * unit,
        ) ==> r % 2 == 0
}

impl Half {
    /// Whether the sign bit is set.
    pub open spec fn negative(self) -> bool {
        self.bits >= 0x8000
    }

    /// The bits without the sign.
    pub open spec fn abs(self) -> int {
        self.bits as int % 0x8000
    }

    /// The magnitude, in units of 2^-24.
    pub open spec fn magnitude(self) -> int {
        magnitude(self.abs(), half_one())
    }
}

impl Single {
    /// Whether the sign bit is set.
    pub open spec fn negative(self) -> bool {
        self.bits >= 0x8000_0000
    }

    /// The bits without the sign.
    pub open spec fn abs(self) -> int {
        self.bits as int % 0x8000_0000
    }

    /// The magnitude, in units of 2^-149.
    pub open spec fn magnitude(self) -> int {
        magnitude(self.abs(), single_one())
    }
}

impl Double {
    /// Whether the sign bit is set.
    pub open spec fn negative(self) -> bool {
        self.bits >= 0x8000_0000_0000_0000
    }

    /// The bits without the sign.
    pub open spec fn abs(self) -> int {
        self.bits as int % 0x8000_0000_0000_0000
    }

    /// The magnitude, in units of 2^-1074.
    pub open spec fn magnitude(self) -> int {
        magnitude(self.abs(), double_one())
    }

    /// Whether this is a number other than an infinity.
    pub open spec fn finite(self) -> bool {
        self.abs() < double_infinity()
    }

    /// The value of a finite number, in units of 2^-1074.
    pub open spec fn value(self) -> int {
        if self.negative() {
            -self.magnitude()
        } else {
            self.magnitude()
        }
    }
}



/// The step from one magnitude to the next.
pub open spec fn gap(abs: int, one: int) -> int {
    if abs / one == 0 {
        1
    } else {
        pow2((abs / one - 1) as nat) as int
    }
}

/// The quotient and the remainder of the next integer.
proof fn lemma_next_div_mod(a: int, d: int)
    requires
        0 <= a,
        d > 0,
    ensures
        a % d + 1 < d ==> (a + 1) / d == a / d && (a + 1) % d == a % d + 1,
        a % d + 1 == d ==> (a + 1) / d == a / d + 1 && (a + 1) % d == 0,
{
    vstd::arithmetic::div_mod::lemma_fundamental_div_mod(a, d);
    let q = a / d;
    let r = a % d;
    assert(d * q == q * d) by (nonlinear_arith);
    assert((q + 1) * d == q * d + d) by (nonlinear_arith);
    if r + 1 < d {
        vstd::arithmetic::div_mod::lemma_fundamental_div_mod_converse(a + 1, d, q, r + 1);
    } else {
        vstd::arithmetic::div_mod::lemma_fundamental_div_mod_converse(a + 1, d, q + 1, 0);
    }
}

/// Two neighbouring bit patterns differ by the gap.
pub proof fn lemma_magnitude_step(a: int, one: int)
    requires
        0 <= a,
        one > 1,
    ensures
        magnitude(a + 1, one) == magnitude(a, one) + gap(a, one),
        gap(a, one) > 0,
{
    lemma_next_div_mod(a, one);
    vstd::arithmetic::div_mod::lemma_div_pos_is_pos(a, one);
    vstd::arithmetic::power2::lemma2_to64();
    let q = a / one;
    let r = a % one;
    if q == 0 {
        assert((one + 0) * pow2(0) == one) by (nonlinear_arith)
            requires
                pow2(0) == 1,
        ;
    } else {
        let p = pow2((q - 1) as nat) as int;
        lemma_pow2_pos((q - 1) as nat);
        if r + 1 < one {
            assert((one + (r + 1)) * p == (one + r) * p + p) by (nonlinear_arith);
        } else {
            lemma_pow2_unfold(q as nat);
            assert((one + 0) * (2 * p) == (one + r) * p + p) by (nonlinear_arith)
                requires
                    r + 1 == one,
            ;
        }
    }
}

/// A larger bit pattern has a larger magnitude.
pub proof fn lemma_magnitude_increases(a: int, b: int, one: int)
    requires
        0 <= a < b,
        one > 1,
    ensures
        magnitude(a, one) < magnitude(b, one),
    decreases b - a,
{
    lemma_magnitude_step(b - 1, one);
    if a < b - 1 {
        lemma_magnitude_increases(a, b - 1, one);
    }
}

/// Magnitudes are not negative.
pub proof fn lemma_magnitude_not_negative(a: int, one: int)
    requires
        0 <= a,
        one > 1,
    ensures
        0 <= magnitude(a, one),
{
    vstd::arithmetic::div_mod::lemma_div_pos_is_pos(a, one);
    assert(magnitude(0, one) == 0) by {
        vstd::arithmetic::div_mod::lemma_small_mod(0, one as nat);
        vstd::arithmetic::div_mod::lemma_basic_div(0, one);
    }
    if a > 0 {
        lemma_magnitude_increases(0, a, one);
    }
}

/// What lies at or beyond the largest magnitude rounds to the largest bit pattern.
pub proof fn lemma_nearest_top(v: int, one: int, top: int, unit: int)
    requires
        0 <= top,
        one > 1,
        unit > 0,
        magnitude(top, one) * unit <= v,
    ensures
        is_nearest(v, top, one, top, unit),
{
    assert forall|t: int| 0 <= t < top implies distance(v, magnitude(top, one) * unit) < distance(
        v,
        #[trigger] magnitude(t, one) * unit,
    ) by {
        lemma_magnitude_increases(t, top, one);
        let x = magnitude(t, one);
        let y = magnitude(top, one);
        assert(x * unit < y * unit) by (nonlinear_arith)
            requires
                x < y,
                unit > 0,
        ;
    }
}

/// Between two neighbouring bit patterns `k` and `k + 1`, with `v` at `rest` of `2 * half` equal
/// parts of the way, the nearer one is taken, and half way the even one.
pub proof fn lemma_nearest_between(
    v: int,
    k: int,
    r: int,
    rest: int,
    half: int,
    part: int,
    one: int,
    top: int,
    unit: int,
)
    requires
        0 <= k < top,
        one > 1,
        unit > 0,
        part > 0,
        0 <= rest < 2 * half,
        v == magnitude(k, one) * unit + rest * part,
        gap(k, one) * unit == 2 * half * part,
        r == if rest > half || (rest == half && k % 2 == 1) {
            k + 1
        } else {
            k
        },
    ensures
        is_nearest(v, r, one, top, unit),
{
    let low = magnitude(k, one) * unit;
    let high = magnitude(k + 1, one) * unit;
    lemma_magnitude_step(k, one);
    assert(high == low + gap(k, one) * unit) by (nonlinear_arith)
        requires
            low == magnitude(k, one) * unit,
            high == magnitude(k + 1, one) * unit,
            magnitude(k + 1, one) == magnitude(k, one) + gap(k, one),
    ;
    assert(2 * half * part == 2 * (half * part)) by (nonlinear_arith);
    assert(0 <= rest * part < 2 * (half * part)) by (nonlinear_arith)
        requires
            0 <= rest < 2 * half,
            part > 0,
    ;
    assert(rest > half ==> rest * part > half * part) by (nonlinear_arith)
        requires
            part > 0,
    ;
    assert(rest < half ==> rest * part < half * part) by (nonlinear_arith)
        requires
            part > 0,
    ;
    assert forall|t: int| 0 <= t < k implies #[trigger] magnitude(t, one) * unit < low by {
        lemma_magnitude_increases(t, k, one);
        let x = magnitude(t, one);
        let y = magnitude(k, one);
        assert(x * unit < y * unit) by (nonlinear_arith)
            requires
                x < y,
                unit > 0,
        ;
    }
    assert forall|t: int| k + 1 < t <= top implies #[trigger] magnitude(t, one) * unit > high by {
        lemma_magnitude_increases(k + 1, t, one);
        let x = magnitude(t, one);
        let y = magnitude(k + 1, one);
        assert(x * unit > y * unit) by (nonlinear_arith)
            requires
                x > y,
                unit > 0,
        ;
    }
    let chosen = magnitude(r, one) * unit;
    assert forall|t: int| 0 <= t <= top implies distance(v, chosen) <= distance(
        v,
        #[trigger] magnitude(t, one) * unit,
    ) by {
        assert(t < k || t == k || t == k + 1 || t > k + 1);
    }
    assert forall|t: int|
        0 <= t <= top && t != r && distance(v, #[trigger] magnitude(t, one) * unit) == distance(
            v,
            chosen,
        ) implies r % 2 == 0 by {
        assert(t < k || t == k || t == k + 1 || t > k + 1);
    }
}

/// Rounding determines its result: no number has two nearest ones.
pub proof fn lemma_nearest_unique(v: int, r: int, s: int, one: int, top: int, unit: int)
    requires
        one > 1,
        unit > 0,
        is_nearest(v, r, one, top, unit),
        is_nearest(v, s, one, top, unit),
    ensures
        r == s,
{
    lemma_nearest_not_below(v, r, s, one, top, unit);
    lemma_nearest_not_below(v, s, r, one, top, unit);
}

proof fn lemma_nearest_not_below(v: int, r: int, s: int, one: int, top: int, unit: int)
    requires
        one > 1,
        unit > 0,
        is_nearest(v, r, one, top, unit),
        is_nearest(v, s, one, top, unit),
    ensures
        r >= s,
{
    if r < s {
        let x = magnitude(r, one) * unit;
        let z = magnitude(s, one) * unit;
        assert(distance(v, x) == distance(v, z));
        if s == r + 1 {
            assert(r % 2 == 0);
            assert(s % 2 == 0);
        } else {
            lemma_magnitude_increases(r, r + 1, one);
            lemma_magnitude_increases(r + 1, s, one);
            let y = magnitude(r + 1, one) * unit;
            let a = magnitude(r, one);
            let b = magnitude(r + 1, one);
            let c = magnitude(s, one);
            assert(a * unit < b * unit && b * unit < c * unit) by (nonlinear_arith)
                requires
                    a < b < c,
                    unit > 0,
            ;
            assert(distance(v, x) <= distance(v, y));
        }
    }
}


/// Magnitudes tell bit patterns apart.
pub proof fn lemma_magnitude_injective(a: int, b: int, one: int)
    requires
        0 <= a,
        0 <= b,
        one > 1,
        magnitude(a, one) == magnitude(b, one),
    ensures
        a == b,
{
    if a < b {
        lemma_magnitude_increases(a, b, one);
    } else if b < a {
        lemma_magnitude_increases(b, a, one);
    }
}

/// The power of two with a small exponent.
pub fn power_of_two(e: u64) -> (r: u64)
    requires
        e < 64,
    ensures
        r == pow2(e as nat),
{
    let mut r: u64 = 1;
    let mut i: u64 = 0;
    proof {
        lemma2_to64();
    }
    while i < e
        invariant
            i <= e < 64,
            r == pow2(i as nat),
        decreases e - i,
    {
        proof {
            lemma_pow2_unfold((i + 1) as nat);
            lemma_pow2_strictly_increases((i + 1) as nat, 64);
            lemma2_to64();
            lemma2_to64_rest();
        }
        r = r * 2;
        i = i + 1;
    }
    r
}

/// A normal number keeps its value when its fraction moves up by `shift` places and its exponent
/// grows by `bias`.
proof fn lemma_widen_normal(
    fraction: int,
    exponent: int,
    one: int,
    shift: nat,
    factor: int,
    bias: nat,
)
    requires
        exponent >= 1,
        factor == pow2(shift),
    ensures
        (one * factor + fraction * factor) * pow2((exponent + bias - 1) as nat) == ((one + fraction)
            * pow2((exponent - 1) as nat)) * pow2(shift + bias),
{
    let e = (exponent - 1) as nat;
    lemma_pow2_adds(e, bias);
    lemma_pow2_adds(shift, bias);
    assert((exponent + bias - 1) as nat == e + bias);
    let s = pow2(shift) as int;
    let p = pow2(e) as int;
    let b = pow2(bias) as int;
    assert((one * s + fraction * s) * (p * b) == ((one + fraction) * p) * (s * b))
        by (nonlinear_arith);
}

/// A subnormal number keeps its value when its fraction is doubled `n` times, up to `m`, and then
/// stands for a number of the exponent `bias - n`.
proof fn lemma_widen_subnormal(
    fraction: int,
    n: nat,
    m: int,
    one: int,
    shift: nat,
    factor: int,
    bias: nat,
)
    requires
        m == fraction * pow2(n),
        n < bias,
        factor == pow2(shift),
    ensures
        (one * factor + (m - one) * factor) * pow2((bias - n - 1) as nat) == fraction * pow2(
            (shift + bias - 1) as nat,
        ),
{
    let e = (bias - n - 1) as nat;
    lemma_pow2_adds(n, e);
    lemma_pow2_adds(shift, (n + e) as nat);
    assert((shift + bias - 1) as nat == shift + (n + e));
    let s = pow2(shift) as int;
    let p = pow2(n) as int;
    let q = pow2(e) as int;
    assert((one * s + (fraction * p - one) * s) * q == fraction * (s * (p * q)))
        by (nonlinear_arith);
}

/// Doubling once more stays within the bits that a fraction has.
proof fn lemma_doubled(fraction: int, n: nat, m: int, one: int, most: nat)
    requires
        0 < fraction,
        m == fraction * pow2(n),
        m < one,
        one == pow2(most),
    ensures
        m * 2 == fraction * pow2(n + 1),
        n + 1 <= most,
{
    lemma_pow2_unfold(n + 1);
    lemma_pow2_pos(n);
    let p = pow2(n) as int;
    assert(fraction * (2 * p) == fraction * p * 2) by (nonlinear_arith);
    assert(fraction * p >= p) by (nonlinear_arith)
        requires
            fraction >= 1,
            p > 0,
    ;
    if n > most {
        lemma_pow2_strictly_increases(most, n);
    }
}

impl Half {
    /// `r` is the single-precision number of the same value. A NaN stays one of the same sign and
    /// payload, and is made quiet.
    pub open spec fn widens_to(self, r: Single) -> bool {
        &&& r.negative() == self.negative()
        &&& if self.abs() > half_infinity() {
            r.abs() == 0x7fc0_0000 + self.abs() % 0x200 * 0x2000
        } else if self.abs() == half_infinity() {
            r.abs() == single_infinity()
        } else {
            r.abs() < single_infinity() && r.magnitude() == self.magnitude() * pow2(125)
        }
    }

    /// The single-precision number of the same value.
    pub open spec fn widened(self) -> Single {
        choose|r: Single| self.widens_to(r)
    }

    /// No half has two single-precision counterparts.
    pub proof fn lemma_widened(self, r: Single)
        requires
            self.widens_to(r),
        ensures
            self.widened() == r,
    {
        let s = self.widened();
        assert(self.widens_to(s));
        if self.abs() < half_infinity() {
            lemma_magnitude_injective(r.abs(), s.abs(), single_one());
        }
    }

    /// Converts to single precision, exactly.
    pub fn to_single(self) -> (r: Single)
        ensures
            self.widens_to(r),
            r == self.widened(),
    {
        let sign: u32 = if self.bits >= 0x8000 {
            0x8000_0000
        } else {
            0
        };
        let abs: u32 = self.bits as u32 % 0x8000;
        let wide: u32 = if abs > 0x7c00 {
            0x7fc0_0000 + abs % 0x200 * 0x2000
        } else if abs == 0x7c00 {
            0x7f80_0000
        } else {
            widen_half(abs)
        };
        let r = Single { bits: sign + wide };
        proof {
            assert(r.abs() == wide);
            self.lemma_widened(r);
        }
        r
    }
}

/// The bits, without the sign, of the single-precision number of the same value as a finite half.
fn widen_half(abs: u32) -> (r: u32)
    requires
        abs < half_infinity(),
    ensures
        r < single_infinity(),
        magnitude(r as int, single_one()) == magnitude(abs as int, half_one()) * pow2(125),
{
    let exponent: u32 = abs / 0x400;
    let fraction: u32 = abs % 0x400;
    proof {
        lemma2_to64();
    }
    if exponent > 0 {
        let r: u32 = (exponent + 112) * 0x80_0000 + fraction * 0x2000;
        proof {
            lemma_widen_normal(fraction as int, exponent as int, half_one(), 13, 0x2000, 112);
            assert(r as int / single_one() == exponent + 112);
            assert(r as int % single_one() == fraction * 0x2000);
            assert(magnitude(r as int, single_one()) == (single_one() + fraction * 0x2000) * pow2(
                (exponent + 112 - 1) as nat,
            ));
            assert(magnitude(abs as int, half_one()) == (half_one() + fraction) * pow2(
                (exponent - 1) as nat,
            ));
        }
        r
    } else if fraction == 0 {
        proof {
            assert(magnitude(0, half_one()) * pow2(125) == 0) by (nonlinear_arith)
                requires
                    magnitude(0, half_one()) == 0,
            ;
        }
        0
    } else {
        let mut m: u32 = fraction;
        let mut n: u32 = 0;
        proof {
            assert(fraction as int * pow2(0) == fraction) by (nonlinear_arith)
                requires
                    pow2(0) == 1,
            ;
        }
        while m < 0x400
            invariant
                0 < fraction < 0x400,
                0 < m < 0x800,
                n <= 10,
                m == fraction * pow2(n as nat),
            decreases 0x800 - m,
        {
            proof {
                lemma2_to64();
                lemma_doubled(fraction as int, n as nat, m as int, 0x400, 10);
            }
            m = m * 2;
            n = n + 1;
        }
        let r: u32 = (113 - n) * 0x80_0000 + (m - 0x400) * 0x2000;
        proof {
            lemma_widen_subnormal(fraction as int, n as nat, m as int, half_one(), 13, 0x2000, 113);
            assert(r as int / single_one() == 113 - n);
            assert(r as int % single_one() == (m - 0x400) * 0x2000);
            assert(magnitude(r as int, single_one()) == (single_one() + (m - 0x400) * 0x2000) * pow2(
                (113 - n - 1) as nat,
            ));
            assert(magnitude(abs as int, half_one()) == fraction);
        }
        r
    }
}

impl Single {
    /// `r` is the double-precision number of the same value. A NaN stays one of the same sign and
    /// payload, and is made quiet.
    pub open spec fn widens_to(self, r: Double) -> bool {
        &&& r.negative() == self.negative()
        &&& if self.abs() > single_infinity() {
            r.abs() == 0x7ff8_0000_0000_0000 + self.abs() % 0x40_0000 * 0x2000_0000
        } else if self.abs() == single_infinity() {
            r.abs() == double_infinity()
        } else {
            r.abs() < double_infinity() && r.magnitude() == self.magnitude() * pow2(925)
        }
    }

    /// The double-precision number of the same value.
    pub open spec fn widened(self) -> Double {
        choose|r: Double| self.widens_to(r)
    }

    /// No single has two double-precision counterparts.
    pub proof fn lemma_widened(self, r: Double)
        requires
            self.widens_to(r),
        ensures
            self.widened() == r,
    {
        let s = self.widened();
        assert(self.widens_to(s));
        if self.abs() < single_infinity() {
            lemma_magnitude_injective(r.abs(), s.abs(), double_one());
        }
    }

    /// Converts to double precision, exactly.
    pub fn to_double(self) -> (r: Double)
        ensures
            self.widens_to(r),
            r == self.widened(),
    {
        let sign: u64 = if self.bits >= 0x8000_0000 {
            0x8000_0000_0000_0000
        } else {
            0
        };
        let abs: u64 = self.bits as u64 % 0x8000_0000;
        let wide: u64 = if abs > 0x7f80_0000 {
            0x7ff8_0000_0000_0000 + abs % 0x40_0000 * 0x2000_0000
        } else if abs == 0x7f80_0000 {
            0x7ff0_0000_0000_0000
        } else {
            widen_single(abs)
        };
        let r = Double { bits: sign + wide };
        proof {
            assert(r.abs() == wide);
            self.lemma_widened(r);
        }
        r
    }
}

/// The bits, without the sign, of the double-precision number of the same value as a finite
/// single.
fn widen_single(abs: u64) -> (r: u64)
    requires
        abs < single_infinity(),
    ensures
        r < double_infinity(),
        magnitude(r as int, double_one()) == magnitude(abs as int, single_one()) * pow2(925),
{
    let exponent: u64 = abs / 0x80_0000;
    let fraction: u64 = abs % 0x80_0000;
    proof {
        lemma2_to64();
    }
    if exponent > 0 {
        let r: u64 = (exponent + 896) * 0x10_0000_0000_0000 + fraction * 0x2000_0000;
        proof {
            lemma_widen_normal(fraction as int, exponent as int, single_one(), 29, 0x2000_0000, 896);
            assert(r as int / double_one() == exponent + 896);
            assert(r as int % double_one() == fraction * 0x2000_0000);
            assert(magnitude(r as int, double_one()) == (double_one() + fraction * 0x2000_0000) * pow2(
                (exponent + 896 - 1) as nat,
            ));
            assert(magnitude(abs as int, single_one()) == (single_one() + fraction) * pow2(
                (exponent - 1) as nat,
            ));
        }
        r
    } else if fraction == 0 {
        proof {
            assert(magnitude(0, single_one()) * pow2(925) == 0) by (nonlinear_arith)
                requires
                    magnitude(0, single_one()) == 0,
            ;
        }
        0
    } else {
        let mut m: u64 = fraction;
        let mut n: u64 = 0;
        proof {
            assert(fraction as int * pow2(0) == fraction) by (nonlinear_arith)
                requires
                    pow2(0) == 1,
            ;
        }
        while m < 0x80_0000
            invariant
                0 < fraction < 0x80_0000,
                0 < m < 0x100_0000,
                n <= 23,
                m == fraction * pow2(n as nat),
            decreases 0x100_0000 - m,
        {
            proof {
                lemma2_to64();
                lemma_doubled(fraction as int, n as nat, m as int, 0x80_0000, 23);
            }
            m = m * 2;
            n = n + 1;
        }
        let r: u64 = (897 - n) * 0x10_0000_0000_0000 + (m - 0x80_0000) * 0x2000_0000;
        proof {
            lemma_widen_subnormal(fraction as int, n as nat, m as int, single_one(), 29, 0x2000_0000, 897);
            assert(r as int / double_one() == 897 - n);
            assert(r as int % double_one() == (m - 0x80_0000) * 0x2000_0000);
            assert(magnitude(r as int, double_one()) == (double_one() + (m - 0x80_0000) * 0x2000_0000) * pow2(
                (897 - n - 1) as nat,
            ));
            assert(magnitude(abs as int, single_one()) == fraction);
        }
        r
    }
}

impl Double {
    /// `r` is the nearest single-precision number, ties going to the even one and what is too
    /// large to infinity. A NaN stays one of the same sign, keeps the upper part of its payload,
    /// and is made quiet.
    pub open spec fn narrows_to(self, r: Single) -> bool {
        &&& r.negative() == self.negative()
        &&& if self.abs() > double_infinity() {
            r.abs() == 0x7fc0_0000 + self.abs() % 0x8_0000_0000_0000 / 0x2000_0000
        } else {
            is_nearest(
                self.magnitude(),
                r.abs(),
                single_one(),
                single_infinity(),
                pow2(925) as int,
            )
        }
    }

    /// The nearest single-precision number.
    pub open spec fn narrowed(self) -> Single {
        choose|r: Single| self.narrows_to(r)
    }

    /// No double has two nearest singles.
    pub proof fn lemma_narrowed(self, r: Single)
        requires
            self.narrows_to(r),
        ensures
            self.narrowed() == r,
    {
        let s = self.narrowed();
        assert(self.narrows_to(s));
        if self.abs() <= double_infinity() {
            lemma_pow2_pos(925);
            lemma_nearest_unique(
                self.magnitude(),
                r.abs(),
                s.abs(),
                single_one(),
                single_infinity(),
                pow2(925) as int,
            );
        }
    }

    /// Converts to single precision, rounding to nearest.
    pub fn to_single(self) -> (r: Single)
        ensures
            self.narrows_to(r),
            r == self.narrowed(),
    {
        let sign: u32 = if self.bits >= 0x8000_0000_0000_0000 {
            0x8000_0000
        } else {
            0
        };
        let abs: u64 = self.bits % 0x8000_0000_0000_0000;
        let narrow: u32 = if abs > 0x7ff0_0000_0000_0000 {
            0x7fc0_0000 + (abs % 0x8_0000_0000_0000 / 0x2000_0000) as u32
        } else {
            round_to_single(abs)
        };
        let r = Single { bits: sign + narrow };
        proof {
            assert(r.abs() == narrow);
            self.lemma_narrowed(r);
        }
        r
    }
}

/// The bits, without the sign, of the single-precision number nearest to a double that is no NaN.
fn round_to_single(abs: u64) -> (r: u32)
    requires
        abs <= double_infinity(),
    ensures
        is_nearest(
            magnitude(abs as int, double_one()),
            r as int,
            single_one(),
            single_infinity(),
            pow2(925) as int,
        ),
{
    let exponent: u64 = abs / 0x10_0000_0000_0000;
    let fraction: u64 = abs % 0x10_0000_0000_0000;
    let ghost v = magnitude(abs as int, double_one());
    proof {
        lemma2_to64();
        lemma2_to64_rest();
        lemma_pow2_pos(925);
    }
    if exponent >= 1151 {
        proof {
            lemma_overflows(abs as int);
            lemma_nearest_top(v, single_one(), single_infinity(), pow2(925) as int);
        }
        0x7f80_0000
    } else if exponent >= 897 {
        let k: u64 = (exponent - 896) * 0x80_0000 + fraction / 0x2000_0000;
        let rest: u64 = fraction % 0x2000_0000;
        let r: u64 = if rest > 0x1000_0000 || (rest == 0x1000_0000 && k % 2 == 1) {
            k + 1
        } else {
            k
        };
        proof {
            let part = pow2((exponent - 1) as nat) as int;
            lemma_pow2_pos((exponent - 1) as nat);
            assert(k as int / single_one() == exponent - 896);
            assert(k as int % single_one() == fraction / 0x2000_0000);
            lemma_narrow_normal(fraction as int, exponent as int);
            lemma_nearest_between(
                v,
                k as int,
                r as int,
                rest as int,
                0x1000_0000,
                part,
                single_one(),
                single_infinity(),
                pow2(925) as int,
            );
        }
        r as u32
    } else {
        let m: u64 = if exponent == 0 {
            fraction
        } else {
            0x10_0000_0000_0000 + fraction
        };
        let place: u64 = if exponent == 0 {
            0
        } else {
            exponent - 1
        };
        proof {
            assert(fraction as int * pow2(0) == fraction) by (nonlinear_arith)
                requires
                    pow2(0) == 1,
            ;
            assert(v == m * pow2(place as nat));
        }
        if place <= 870 {
            proof {
                lemma_underflows(m as int, place as nat);
                lemma_nearest_between(
                    v,
                    0,
                    0,
                    v,
                    pow2(924) as int,
                    1,
                    single_one(),
                    single_infinity(),
                    pow2(925) as int,
                );
            }
            0
        } else {
            let divisor: u64 = power_of_two(925 - place);
            let half: u64 = divisor / 2;
            let k: u64 = m / divisor;
            let rest: u64 = m % divisor;
            proof {
                lemma_narrow_subnormal(m as int, place as nat, divisor as int);
            }
            let r: u64 = if rest > half || (rest == half && k % 2 == 1) {
                k + 1
            } else {
                k
            };
            proof {
                lemma_pow2_pos(place as nat);
                lemma_nearest_between(
                    v,
                    k as int,
                    r as int,
                    rest as int,
                    half as int,
                    pow2(place as nat) as int,
                    single_one(),
                    single_infinity(),
                    pow2(925) as int,
                );
            }
            r as u32
        }
    }
}

/// A double with an exponent field of 1151 or more lies beyond every finite single.
proof fn lemma_overflows(abs: int)
    requires
        1151 <= abs / double_one(),
    ensures
        magnitude(single_infinity(), single_one()) * pow2(925) <= magnitude(abs, double_one()),
{
    let e = (abs / double_one() - 1) as nat;
    let f = abs % double_one();
    lemma2_to64();
    lemma2_to64_rest();
    assert(single_infinity() / single_one() == 255);
    assert(single_infinity() % single_one() == 0);
    assert(magnitude(single_infinity(), single_one()) == single_one() * pow2(254));
    lemma_pow2_adds(254, 925);
    lemma_pow2_adds(29, 1150);
    if e > 1150 {
        lemma_pow2_strictly_increases(1150, e);
    }
    let a = pow2(254) as int;
    let b = pow2(925) as int;
    let c = pow2(1150) as int;
    let d = pow2(e) as int;
    assert((0x80_0000 * a) * b == 0x10_0000_0000_0000 * c) by (nonlinear_arith)
        requires
            a * b == 0x2000_0000 * c,
    ;
    assert((0x10_0000_0000_0000 + f) * d >= 0x10_0000_0000_0000 * c) by (nonlinear_arith)
        requires
            f >= 0,
            d >= c,
            c >= 0,
    ;
}

/// Where a double falls between two neighbouring normal singles.
proof fn lemma_narrow_normal(fraction: int, exponent: int)
    requires
        0 <= fraction < double_one(),
        897 <= exponent < 1151,
    ensures
        (double_one() + fraction) * pow2((exponent - 1) as nat) == ((single_one() + fraction
            / 0x2000_0000) * pow2((exponent - 897) as nat)) * pow2(925) + fraction % 0x2000_0000
            * pow2((exponent - 1) as nat),
        pow2((exponent - 897) as nat) * pow2(925) == 2 * 0x1000_0000 * pow2((exponent - 1) as nat),
{
    let low = (exponent - 897) as nat;
    lemma_pow2_adds(low, 925);
    lemma_pow2_adds(29, (exponent - 1) as nat);
    assert(low + 925 == 29 + (exponent - 1) as nat);
    lemma2_to64();
    let q = fraction / 0x2000_0000;
    let r = fraction % 0x2000_0000;
    let a = pow2(low) as int;
    let b = pow2(925) as int;
    let c = pow2((exponent - 1) as nat) as int;
    assert((0x10_0000_0000_0000 + fraction) * c == ((0x80_0000 + q) * a) * b + r * c)
        by (nonlinear_arith)
        requires
            a * b == 0x2000_0000 * c,
            fraction == 0x2000_0000 * q + r,
    ;
}

/// A small enough double lies nearest to zero.
proof fn lemma_underflows(m: int, place: nat)
    requires
        0 <= m < 0x20_0000_0000_0000,
        place <= 870,
    ensures
        0 <= m * pow2(place) < pow2(924),
        gap(0, single_one()) * pow2(925) == 2 * pow2(924) * 1,
        magnitude(0, single_one()) * pow2(925) == 0,
{
    lemma2_to64();
    lemma2_to64_rest();
    lemma_pow2_unfold(925);
    lemma_pow2_adds(53, 871);
    lemma_pow2_pos(place);
    lemma_pow2_strictly_increases(place, 871);
    let a = pow2(place) as int;
    let b = pow2(871) as int;
    assert(0 <= m * a < 0x20_0000_0000_0000 * b) by (nonlinear_arith)
        requires
            0 <= m < 0x20_0000_0000_0000,
            0 < a < b,
    ;
    assert(magnitude(0, single_one()) * pow2(925) == 0) by (nonlinear_arith)
        requires
            magnitude(0, single_one()) == 0,
    ;
}

/// Where a double falls between two neighbouring subnormal singles.
proof fn lemma_narrow_subnormal(m: int, place: nat, divisor: int)
    requires
        0 <= m < 0x20_0000_0000_0000,
        870 < place < 896,
        divisor == pow2((925 - place) as nat),
    ensures
        0 <= m / divisor < single_one(),
        0 <= m % divisor < divisor,
        2 * (divisor / 2) == divisor,
        m * pow2(place) == magnitude(m / divisor, single_one()) * pow2(925) + m % divisor * pow2(
            place,
        ),
        gap(m / divisor, single_one()) * pow2(925) == 2 * (divisor / 2) * pow2(place),
{
    let s = (925 - place) as nat;
    lemma_pow2_adds(s, place);
    lemma_pow2_unfold(s);
    lemma2_to64();
    lemma_pow2_pos(s);
    if s > 30 {
        lemma_pow2_strictly_increases(30, s);
    }
    let q = m / divisor;
    let r = m % divisor;
    vstd::arithmetic::div_mod::lemma_fundamental_div_mod(m, divisor);
    assert(0 <= q < 0x80_0000) by (nonlinear_arith)
        requires
            m == divisor * q + r,
            0 <= r < divisor,
            divisor >= 0x4000_0000,
            0 <= m < 0x20_0000_0000_0000,
    ;
    let a = pow2(place) as int;
    let b = pow2(925) as int;
    assert(m * a == q * b + r * a) by (nonlinear_arith)
        requires
            m == divisor * q + r,
            b == divisor * a,
    ;
    assert(q / single_one() == 0 && q % single_one() == q);
}

/// What is a magnitude itself rounds to it.
pub proof fn lemma_nearest_exact(r: int, one: int, top: int, unit: int)
    requires
        0 <= r <= top,
        one > 1,
        unit > 0,
    ensures
        is_nearest(magnitude(r, one) * unit, r, one, top, unit),
{
    let v = magnitude(r, one) * unit;
    assert forall|t: int| 0 <= t <= top && t != r implies distance(
        v,
        #[trigger] magnitude(t, one) * unit,
    ) > 0 by {
        if t < r {
            lemma_magnitude_increases(t, r, one);
        } else {
            lemma_magnitude_increases(r, t, one);
        }
        let x = magnitude(t, one);
        let y = magnitude(r, one);
        assert(x * unit != y * unit) by (nonlinear_arith)
            requires
                x != y,
                unit > 0,
        ;
    }
}

/// Infinity in double precision lies beyond infinity in single precision.
pub proof fn lemma_infinity_covers()
    ensures
        magnitude(single_infinity(), single_one()) * pow2(925) <= magnitude(
            double_infinity(),
            double_one(),
        ),
{
    lemma_overflows(double_infinity());
}

impl Half {
    /// Whether two numbers are equal: neither is a NaN, and they are the same or both zero.
    pub open spec fn equals(self, other: Half) -> bool {
        &&& self.abs() <= half_infinity()
        &&& other.abs() <= half_infinity()
        &&& self.bits == other.bits || (self.abs() == 0 && other.abs() == 0)
    }
}

impl PartialEq for Half {
    fn eq(&self, other: &Half) -> (r: bool) {
        let a = self.bits % 0x8000;
        let b = other.bits % 0x8000;
        a <= 0x7c00 && b <= 0x7c00 && (self.bits == other.bits || (a == 0 && b == 0))
    }
}

impl vstd::std_specs::cmp::PartialEqSpecImpl for Half {
    open spec fn obeys_eq_spec() -> bool {
        true
    }

    open spec fn eq_spec(&self, other: &Half) -> bool {
        self.equals(*other)
    }
}

impl Single {
    /// Whether two numbers are equal: neither is a NaN, and they are the same or both zero.
    pub open spec fn equals(self, other: Single) -> bool {
        &&& self.abs() <= single_infinity()
        &&& other.abs() <= single_infinity()
        &&& self.bits == other.bits || (self.abs() == 0 && other.abs() == 0)
    }
}

impl PartialEq for Single {
    fn eq(&self, other: &Single) -> (r: bool) {
        let a = self.bits % 0x8000_0000;
        let b = other.bits % 0x8000_0000;
        a <= 0x7f80_0000 && b <= 0x7f80_0000 && (self.bits == other.bits || (a == 0 && b == 0))
    }
}

impl vstd::std_specs::cmp::PartialEqSpecImpl for Single {
    open spec fn obeys_eq_spec() -> bool {
        true
    }

    open spec fn eq_spec(&self, other: &Single) -> bool {
        self.equals(*other)
    }
}

impl Double {
    /// Whether two numbers are equal: neither is a NaN, and they are the same or both zero.
    pub open spec fn equals(self, other: Double) -> bool {
        &&& self.abs() <= double_infinity()
        &&& other.abs() <= double_infinity()
        &&& self.bits == other.bits || (self.abs() == 0 && other.abs() == 0)
    }
}

impl PartialEq for Double {
    fn eq(&self, other: &Double) -> (r: bool) {
        let a = self.bits % 0x8000_0000_0000_0000;
        let b = other.bits % 0x8000_0000_0000_0000;
        a <= 0x7ff0_0000_0000_0000 && b <= 0x7ff0_0000_0000_0000 && (self.bits == other.bits || (a == 0 && b == 0))
    }
}

impl vstd::std_specs::cmp::PartialEqSpecImpl for Double {
    open spec fn obeys_eq_spec() -> bool {
        true
    }

    open spec fn eq_spec(&self, other: &Double) -> bool {
        self.equals(*other)
    }
}

} // verus!
