//! When two double-precision numbers count as the same: their difference, computed in double
//! precision, is smaller than the machine epsilon 2^-52.
use crate::num::Double;
use vstd::arithmetic::power2::*;
use vstd::prelude::*;

verus! {

/// 2^-52, in units of 2^-1074.
pub open spec fn epsilon() -> int {
    pow2(1022) as int
}

/// The bits of 2^-52.
spec fn epsilon_bits() -> int {
    971 * 0x10_0000_0000_0000int
}

/// `r` is the double-precision number nearest to a difference of `v` units of 2^-1074.
pub open spec fn rounds_to(v: int, r: int) -> bool {
    crate::num::is_nearest(
        v,
        r,
        crate::num::double_one(),
        crate::num::double_infinity(),
        1,
    )
}

/// The magnitude of 2^-52, and of the numbers around it.
proof fn lemma_around_epsilon()
    ensures
        crate::num::magnitude(epsilon_bits(), crate::num::double_one()) == epsilon(),
        crate::num::magnitude(epsilon_bits() - 1, crate::num::double_one()) == epsilon() - pow2(969),
        pow2(969) == 2 * pow2(968),
        pow2(968) > 0,
        epsilon() == 0x40_0000_0000_0000 * pow2(968),
{
    let one = crate::num::double_one();
    lemma2_to64();
    lemma2_to64_rest();
    lemma_pow2_adds(52, 970);
    lemma_pow2_adds(54, 968);
    lemma_pow2_unfold(969);
    lemma_pow2_pos(968);
    assert(epsilon_bits() / one == 971);
    assert(epsilon_bits() % one == 0);
    assert((epsilon_bits() - 1) / one == 970);
    crate::num::lemma_magnitude_step(epsilon_bits() - 1, one);
    assert(crate::num::gap(epsilon_bits() - 1, one) == pow2(969));
}

/// The point half way below the machine epsilon is positive.
pub proof fn lemma_threshold_positive()
    ensures
        epsilon() - pow2(968) > 0,
{
    lemma_around_epsilon();
}

/// Every difference has a nearest double-precision number at or after `k`, once it is at least
/// the magnitude of `k`.
proof fn lemma_rounds_from(v: int, k: int) -> (r: int)
    requires
        0 <= k <= crate::num::double_infinity(),
        crate::num::magnitude(k, crate::num::double_one()) <= v,
    ensures
        rounds_to(v, r),
    decreases crate::num::double_infinity() - k,
{
    let one = crate::num::double_one();
    let top = crate::num::double_infinity();
    let low = crate::num::magnitude(k, one);
    if k == top {
        crate::num::lemma_nearest_top(v, one, top, 1);
        top
    } else {
        crate::num::lemma_magnitude_step(k, one);
        let gap = crate::num::gap(k, one);
        if low + gap <= v {
            lemma_rounds_from(v, k + 1)
        } else if gap == 1 {
            assert forall|t: int| 0 <= t <= top && t != k implies crate::num::distance(
                v,
                #[trigger] crate::num::magnitude(t, one) * 1,
            ) > 0 by {
                if t < k {
                    crate::num::lemma_magnitude_increases(t, k, one);
                } else {
                    crate::num::lemma_magnitude_increases(k, t, one);
                }
            }
            k
        } else {
            lemma_gap_even(k);
            let rest = v - low;
            let half = gap / 2;
            let r = if rest > half || (rest == half && k % 2 == 1) {
                k + 1
            } else {
                k
            };
            crate::num::lemma_nearest_between(v, k, r, rest, half, 1, one, top, 1);
            r
        }
    }
}

/// A gap wider than one unit is an even number of units.
proof fn lemma_gap_even(k: int)
    requires
        0 <= k,
        crate::num::gap(k, crate::num::double_one()) != 1,
    ensures
        crate::num::gap(k, crate::num::double_one()) % 2 == 0,
{
    let e = (k / crate::num::double_one() - 1) as nat;
    lemma2_to64();
    lemma_pow2_unfold(e);
}

/// A difference rounds to something smaller than the machine epsilon exactly when it is smaller
/// than the point half way between the machine epsilon and the number below it.
proof fn lemma_rounds_below_epsilon(v: int, r: int)
    requires
        rounds_to(v, r),
    ensures
        crate::num::magnitude(r, crate::num::double_one()) < epsilon() <==> v < epsilon() - pow2(968),
{
    let one = crate::num::double_one();
    let top = crate::num::double_infinity();
    let e = epsilon_bits();
    lemma_around_epsilon();
    let below = crate::num::magnitude(e - 1, one);
    let mr = crate::num::magnitude(r, one);
    assert(crate::num::distance(v, mr * 1) <= crate::num::distance(
        v,
        crate::num::magnitude(e, one) * 1,
    ));
    assert(crate::num::distance(v, mr * 1) <= crate::num::distance(
        v,
        crate::num::magnitude(e - 1, one) * 1,
    ));
    if r < e {
        crate::num::lemma_magnitude_increases(r, e, one);
        if r < e - 1 {
            crate::num::lemma_magnitude_increases(r, e - 1, one);
        }
        assert(mr <= below);
        if v >= epsilon() - pow2(968) {
            assert(crate::num::distance(v, mr) == crate::num::distance(v, epsilon()));
            assert(r == e - 1);
            assert(r % 2 == 0);
            assert(false);
        }
    } else {
        if r > e {
            crate::num::lemma_magnitude_increases(e, r, one);
        }
    }
}

impl Double {
    /// Whether the two numbers are finite and their difference, rounded to double precision, is
    /// smaller than the machine epsilon.
    pub open spec fn close_to(self, other: Double) -> bool {
        &&& self.finite()
        &&& other.finite()
        &&& exists|r: int|
            #[trigger] rounds_to(crate::num::distance(self.value(), other.value()), r)
                && crate::num::magnitude(r, crate::num::double_one()) < epsilon()
    }

    /// Two finite numbers are close exactly when their exact difference is small enough.
    pub proof fn lemma_close_to(self, other: Double)
        requires
            self.finite(),
            other.finite(),
        ensures
            self.close_to(other) <==> crate::num::distance(self.value(), other.value()) < epsilon()
                - pow2(968),
    {
        let v = crate::num::distance(self.value(), other.value());
        let r = lemma_rounds_from(v, 0);
        lemma_rounds_below_epsilon(v, r);
        if self.close_to(other) {
            let s = choose|s: int|
                #[trigger] rounds_to(v, s) && crate::num::magnitude(s, crate::num::double_one())
                    < epsilon();
            lemma_rounds_below_epsilon(v, s);
        }
    }

    /// Whether the difference of two numbers, rounded to double precision, is smaller than the
    /// machine epsilon. It never is where one of them is infinite or a NaN.
    pub fn is_close(self, other: Double) -> (r: bool)
        ensures
            r == self.close_to(other),
    {
        let a: u64 = self.bits % 0x8000_0000_0000_0000;
        let b: u64 = other.bits % 0x8000_0000_0000_0000;
        if a >= 0x7ff0_0000_0000_0000 || b >= 0x7ff0_0000_0000_0000 {
            return false;
        }
        let same_sign = (self.bits >= 0x8000_0000_0000_0000) == (other.bits
            >= 0x8000_0000_0000_0000);
        proof {
            self.lemma_close_to(other);
            crate::num::lemma_magnitude_not_negative(a as int, crate::num::double_one());
            crate::num::lemma_magnitude_not_negative(b as int, crate::num::double_one());
            if a < b {
                crate::num::lemma_magnitude_increases(
                    a as int,
                    b as int,
                    crate::num::double_one(),
                );
            } else if b < a {
                crate::num::lemma_magnitude_increases(
                    b as int,
                    a as int,
                    crate::num::double_one(),
                );
            }
        }
        if a >= b {
            is_small_apart(a, b, same_sign)
        } else {
            is_small_apart(b, a, same_sign)
        }
    }
}

/// How far a larger and a smaller magnitude are apart: their difference where the signs agree,
/// their sum where they do not.
spec fn apart(large: int, small: int, same_sign: bool) -> int {
    if same_sign {
        crate::num::magnitude(large, crate::num::double_one()) - crate::num::magnitude(
            small,
            crate::num::double_one(),
        )
    } else {
        crate::num::magnitude(large, crate::num::double_one()) + crate::num::magnitude(
            small,
            crate::num::double_one(),
        )
    }
}

/// Whether two finite numbers, given without their signs, are less than the machine epsilon apart
/// once their difference is rounded.
fn is_small_apart(large: u64, small: u64, same_sign: bool) -> (r: bool)
    requires
        small <= large < crate::num::double_infinity(),
    ensures
        r == (apart(large as int, small as int, same_sign) < epsilon() - pow2(968)),
{
    let exponent: u64 = large / 0x10_0000_0000_0000;
    proof {
        lemma_around_epsilon();
        crate::num::lemma_magnitude_not_negative(small as int, crate::num::double_one());
        if small < large {
            crate::num::lemma_magnitude_increases(
                small as int,
                large as int,
                crate::num::double_one(),
            );
        }
    }
    if exponent <= 968 {
        proof {
            lemma_tiny(large as int);
        }
        true
    } else if exponent >= 1024 {
        proof {
            lemma_wide(large as int, small as int);
        }
        same_sign && large == small
    } else {
        let (q, _) = in_steps(large);
        let (p, loose) = in_steps(small);
        let steps: u128 = if same_sign {
            proof {
                lemma_steps_order(large as int, small as int, q as int, p as int, loose);
            }
            if loose {
                q - p - 1
            } else {
                q - p
            }
        } else {
            q + p
        };
        proof {
            lemma_steps_decide(
                crate::num::magnitude(large as int, crate::num::double_one()),
                crate::num::magnitude(small as int, crate::num::double_one()),
                q as int,
                p as int,
                loose,
                same_sign,
            );
        }
        steps < 0x3f_ffff_ffff_ffff
    }
}

/// A magnitude counted in steps of 2^-106, rounded down, and whether something is left over.
/// Nothing is left over of a number of at least 2^-54.
fn in_steps(abs: u64) -> (r: (u128, bool))
    requires
        abs / 0x10_0000_0000_0000 <= 1023,
    ensures
        r.0 < 0x800_0000_0000_0000_0000_0000_0000,
        r.0 * pow2(968) <= crate::num::magnitude(abs as int, crate::num::double_one()) < (r.0 + 1)
            * pow2(968),
        r.1 == (crate::num::magnitude(abs as int, crate::num::double_one()) != r.0 * pow2(968)),
        abs / 0x10_0000_0000_0000 >= 969 ==> !r.1 && r.0 >= 0x10_0000_0000_0000,
        abs / 0x10_0000_0000_0000 <= 968 ==> r.0 < 0x10_0000_0000_0000,
{
    let exponent: u64 = abs / 0x10_0000_0000_0000;
    let fraction: u64 = abs % 0x10_0000_0000_0000;
    let m: u64 = if exponent == 0 {
        fraction
    } else {
        0x10_0000_0000_0000 + fraction
    };
    let place: u64 = if exponent == 0 {
        0
    } else {
        exponent - 1
    };
    let ghost v = crate::num::magnitude(abs as int, crate::num::double_one());
    proof {
        lemma2_to64();
        lemma2_to64_rest();
        assert(fraction as int * pow2(0) == fraction) by (nonlinear_arith)
            requires
                pow2(0) == 1,
        ;
        assert(v == m * pow2(place as nat));
        lemma_pow2_pos(968);
    }
    if place >= 968 {
        let p: u64 = crate::num::power_of_two(place - 968);
        proof {
            lemma_pow2_adds((place - 968) as nat, 968);
            lemma_pow2_pos((place - 968) as nat);
            if place < 1022 {
                lemma_pow2_strictly_increases((place - 968) as nat, 54);
            }
            let g = pow2(968) as int;
            assert(m * (p * g) == (m * p) * g) by (nonlinear_arith);
            assert(m * p < 0x800_0000_0000_0000_0000_0000_0000) by (nonlinear_arith)
                requires
                    m < 0x20_0000_0000_0000,
                    0 < p <= 0x40_0000_0000_0000,
            ;
            assert(m * p >= 0x10_0000_0000_0000) by (nonlinear_arith)
                requires
                    m >= 0x10_0000_0000_0000,
                    p > 0,
            ;
            assert((m * p + 1) * g == (m * p) * g + g) by (nonlinear_arith);
        }
        (m as u128 * p as u128, false)
    } else {
        let s: u64 = 968 - place;
        proof {
            lemma_pow2_adds(s as nat, place as nat);
            lemma_pow2_pos(place as nat);
        }
        if s >= 54 {
            proof {
                if s > 54 {
                    lemma_pow2_strictly_increases(54, s as nat);
                }
                let a = pow2(place as nat) as int;
                let d = pow2(s as nat) as int;
                assert(m * a < d * a) by (nonlinear_arith)
                    requires
                        m < d,
                        a > 0,
                ;
                assert(m == 0 ==> m * a == 0) by (nonlinear_arith);
                assert(m > 0 ==> m * a > 0) by (nonlinear_arith)
                    requires
                        a > 0,
                ;
                assert(0 * pow2(968) == 0) by (nonlinear_arith);
                assert((0 + 1) * pow2(968) == pow2(968)) by (nonlinear_arith);
            }
            (0, m != 0)
        } else {
            let d: u64 = crate::num::power_of_two(s);
            let q: u64 = m / d;
            let rest: u64 = m % d;
            proof {
                lemma_pow2_unfold(s as nat);
                lemma_pow2_pos((s - 1) as nat);
                vstd::arithmetic::div_mod::lemma_fundamental_div_mod(m as int, d as int);
                let a = pow2(place as nat) as int;
                let g = pow2(968) as int;
                assert(m * a == q * g + rest * a) by (nonlinear_arith)
                    requires
                        m == d * q + rest,
                        g == d * a,
                ;
                assert(0 <= rest * a < g) by (nonlinear_arith)
                    requires
                        0 <= rest < d,
                        a > 0,
                        g == d * a,
                ;
                assert(rest == 0 ==> rest * a == 0) by (nonlinear_arith);
                assert(rest > 0 ==> rest * a > 0) by (nonlinear_arith)
                    requires
                        a > 0,
                ;
                assert((q + 1) * g == q * g + g) by (nonlinear_arith);
                assert(q < 0x10_0000_0000_0000) by (nonlinear_arith)
                    requires
                        m == d * q + rest,
                        0 <= rest,
                        d >= 2,
                        m < 0x20_0000_0000_0000,
                ;
            }
            (q as u128, rest != 0)
        }
    }
}

/// Numbers below 2^-54 are less than half the machine epsilon apart.
proof fn lemma_tiny(abs: int)
    requires
        0 <= abs,
        abs / 0x10_0000_0000_0000 <= 968,
    ensures
        2 * crate::num::magnitude(abs, crate::num::double_one()) < epsilon() - pow2(968),
{
    let bound = 969 * 0x10_0000_0000_0000int;
    let one = crate::num::double_one();
    assert(abs < bound);
    crate::num::lemma_magnitude_increases(abs, bound, one);
    lemma2_to64();
    lemma2_to64_rest();
    assert(bound / one == 969);
    assert(bound % one == 0);
    lemma_around_epsilon();
    assert(crate::num::magnitude(bound, one) == one * pow2(968));
}

/// From 2 on, different numbers are at least the machine epsilon apart.
proof fn lemma_wide(large: int, small: int)
    requires
        0 <= small <= large,
        1024 <= large / 0x10_0000_0000_0000,
    ensures
        small < large ==> crate::num::magnitude(large, crate::num::double_one())
            - crate::num::magnitude(small, crate::num::double_one()) >= epsilon(),
        crate::num::magnitude(large, crate::num::double_one()) >= epsilon(),
{
    let one = crate::num::double_one();
    crate::num::lemma_magnitude_step(large - 1, one);
    crate::num::lemma_magnitude_not_negative(large - 1, one);
    let e = (large - 1) / one;
    assert(e >= 1023);
    if e > 1023 {
        lemma_pow2_strictly_increases(1022, (e - 1) as nat);
    }
    assert(crate::num::gap(large - 1, one) >= epsilon());
    if small < large - 1 {
        crate::num::lemma_magnitude_increases(small, large - 1, one);
    }
}

/// The larger number has more steps than the smaller one.
proof fn lemma_steps_order(large: int, small: int, q: int, p: int, loose: bool)
    requires
        0 <= small <= large,
        969 <= large / 0x10_0000_0000_0000,
        crate::num::magnitude(large, crate::num::double_one()) == q * pow2(968),
        p * pow2(968) <= crate::num::magnitude(small, crate::num::double_one()) < (p + 1) * pow2(
            968,
        ),
        loose == (crate::num::magnitude(small, crate::num::double_one()) != p * pow2(968)),
    ensures
        p <= q,
        loose ==> p + 1 <= q,
{
    let one = crate::num::double_one();
    if small < large {
        crate::num::lemma_magnitude_increases(small, large, one);
    }
    lemma_pow2_pos(968);
    let g = pow2(968) as int;
    let v = crate::num::magnitude(small, one);
    assert(p <= q) by (nonlinear_arith)
        requires
            p * g <= v,
            v <= q * g,
            g > 0,
    ;
    assert(v != p * g ==> p < q) by (nonlinear_arith)
        requires
            p * g <= v,
            v <= q * g,
            g > 0,
    ;
}

/// Counting steps decides whether two numbers are close.
proof fn lemma_steps_decide(x: int, y: int, q: int, p: int, loose: bool, same_sign: bool)
    requires
        x == q * pow2(968),
        p * pow2(968) <= y < (p + 1) * pow2(968),
        loose == (y != p * pow2(968)),
    ensures
        same_sign ==> (x - y < epsilon() - pow2(968) <==> (if loose {
            q - p - 1
        } else {
            q - p
        }) < 0x3f_ffff_ffff_ffff),
        !same_sign ==> (x + y < epsilon() - pow2(968) <==> q + p < 0x3f_ffff_ffff_ffff),
{
    lemma_around_epsilon();
    let g = pow2(968) as int;
    let n = 0x3f_ffff_ffff_ffffint;
    assert(epsilon() - g == n * g) by (nonlinear_arith)
        requires
            epsilon() == 0x40_0000_0000_0000 * g,
            n == 0x3f_ffff_ffff_ffff,
    ;
    let rest = y - p * g;
    assert(0 <= rest < g) by (nonlinear_arith)
        requires
            rest == y - p * g,
            p * g <= y,
            y < (p + 1) * g,
    ;
    assert(x + y == (q + p) * g + rest) by (nonlinear_arith)
        requires
            x == q * g,
            rest == y - p * g,
    ;
    assert(x - y == (q - p) * g - rest) by (nonlinear_arith)
        requires
            x == q * g,
            rest == y - p * g,
    ;
    lemma_multiple_below(q + p, rest, n, g);
    if loose {
        assert((q - p) * g - rest == (q - p - 1) * g + (g - rest)) by (nonlinear_arith);
        lemma_multiple_below(q - p - 1, g - rest, n, g);
    } else {
        lemma_multiple_below(q - p, 0, n, g);
    }
}

/// A number lies below a multiple of `g` exactly when its quotient does.
proof fn lemma_multiple_below(k: int, rest: int, n: int, g: int)
    requires
        0 <= rest < g,
    ensures
        k * g + rest < n * g <==> k < n,
{
    if k < n {
        assert(k * g + rest < n * g) by (nonlinear_arith)
            requires
                k + 1 <= n,
                0 <= rest < g,
        ;
    } else {
        assert(k * g + rest >= n * g) by (nonlinear_arith)
            requires
                k >= n,
                0 <= rest < g,
        ;
    }
}

} // verus!
