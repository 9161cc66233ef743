//! What bit patterns stand for: the numbers that they are, and that everything decided on
//! the bits is decided on those numbers.

use crate::utils::double;
use crate::utils::double::Double;
use vstd::arithmetic::power2::*;
use vstd::prelude::*;

verus! {

/// The absolute value in units of 2^-1074, the least number there is, for this magnitude.
pub open spec fn units_of(m: int) -> int {
    let field = m / 0x10_0000_0000_0000;
    let fraction = m % 0x10_0000_0000_0000;
    if field == 0 {
        fraction
    } else {
        (0x10_0000_0000_0000 + fraction) * pow2((field - 1) as nat)
    }
}

/// The number that a pattern stands for, in units of 2^-1074. An infinity stands for the
/// number that would follow the greatest.
pub open spec fn units(d: Double) -> int {
    if d.bits >= 0x8000_0000_0000_0000 {
        -units_of(d.bits - 0x8000_0000_0000_0000)
    } else {
        units_of(d.bits as int)
    }
}

proof fn lemma_units_grow(a: int, b: int)
    requires
        0 <= a < b,
    ensures
        0 <= units_of(a) < units_of(b),
{
    let base = 0x10_0000_0000_0000int;
    let fa = a / base;
    let fb = b / base;
    let ra = a % base;
    let rb = b % base;
    lemma_pow2_pos((fb - 1) as nat);
    if fa == fb {
        if fa > 0 {
            let p = pow2((fa - 1) as nat) as int;
            assert((base + ra) * p < (base + rb) * p) by (nonlinear_arith)
                requires
                    ra < rb,
                    p > 0,
            ;
            assert((base + ra) * p >= 0) by (nonlinear_arith)
                requires
                    base + ra >= 0,
                    p > 0,
            ;
        }
    } else {
        assert(fa < fb);
        let p = pow2((fb - 1) as nat) as int;
        assert((base + rb) * p >= base * p) by (nonlinear_arith)
            requires
                rb >= 0,
                p > 0,
        ;
        if fa == 0 {
            assert(base * p >= base) by (nonlinear_arith)
                requires
                    p >= 1,
                    base > 0,
            ;
        } else {
            let q = pow2((fa - 1) as nat) as int;
            lemma_pow2_pos((fa - 1) as nat);
            lemma_pow2_unfold(fa as nat);
            if fa < fb - 1 {
                lemma_pow2_strictly_increases(fa as nat, (fb - 1) as nat);
            }
            assert(2 * q <= p);
            assert((base + ra) * q < 2 * base * q) by (nonlinear_arith)
                requires
                    ra < base,
                    q > 0,
            ;
            assert(2 * base * q <= base * p) by (nonlinear_arith)
                requires
                    2 * q <= p,
                    base > 0,
            ;
            assert((base + ra) * q >= 0) by (nonlinear_arith)
                requires
                    base + ra >= 0,
                    q > 0,
            ;
        }
    }
}

/// Comparisons of patterns are comparisons of the numbers that they stand for. What is not a
/// number, an exponent of ones with a fraction, compares with nothing.
pub proof fn law_comparisons_are_of_numbers(a: Double, b: Double)
    ensures
        double::is_nan(a) <==> a.bits % 0x8000_0000_0000_0000 > 0x7ff0_0000_0000_0000,
        double::is_nan(a) || double::is_nan(b) ==> !double::lt(a, b) && !double::le(a, b)
            && !double::eq(a, b),
        !double::is_nan(a) && !double::is_nan(b) ==> {
            &&& double::lt(a, b) <==> units(a) < units(b)
            &&& double::le(a, b) <==> units(a) <= units(b)
            &&& double::eq(a, b) <==> units(a) == units(b)
        },
{
    let ma = double::magnitude(a);
    let mb = double::magnitude(b);
    assert(units_of(0) == 0);
    if ma < mb {
        lemma_units_grow(ma, mb);
    }
    if mb < ma {
        lemma_units_grow(mb, ma);
    }
    if ma > 0 {
        lemma_units_grow(0, ma);
    }
    if mb > 0 {
        lemma_units_grow(0, mb);
    }
}

/// The total order agrees with the order of numbers, and parts what that does not: negative
/// zero comes before zero, and no two patterns have the same place.
pub proof fn law_the_total_order_is_total(a: Double, b: Double)
    ensures
        double::lt(a, b) ==> double::total_order(a) < double::total_order(b),
        double::total_order(a) == double::total_order(b) ==> a == b,
        double::total_order(Double { bits: 0x8000_0000_0000_0000 }) < double::total_order(
            Double { bits: 0 },
        ),
{
}

proof fn lemma_top_bit_bounds(n: nat)
    requires
        n > 0,
    ensures
        pow2(double::top_bit(n)) <= n < 2 * pow2(double::top_bit(n)),
    decreases n,
{
    lemma2_to64();
    if n >= 2 {
        lemma_top_bit_bounds(n / 2);
        lemma_pow2_unfold(double::top_bit(n));
    }
}

proof fn lemma_whole_magnitude(n: nat)
    requires
        n < 0x20_0000_0000_0000,
    ensures
        0 <= double::whole_magnitude(n) < 0x7ff0_0000_0000_0000,
        units_of(double::whole_magnitude(n) as int) == n * pow2(1074),
{
    let base = 0x10_0000_0000_0000int;
    if n == 0 {
        assert(units_of(0) == 0);
    } else {
        let k = double::top_bit(n);
        lemma_top_bit_bounds(n);
        lemma2_to64();
        lemma_pow2_adds(32, 20);
        if k > 52 {
            lemma_pow2_unfold(53);
            if k > 53 {
                lemma_pow2_strictly_increases(53, k);
            }
        }
        let q = pow2((52 - k) as nat) as int;
        let s = n * q;
        lemma_pow2_adds(k, (52 - k) as nat);
        lemma_pow2_pos((52 - k) as nat);
        let p = pow2(k) as int;
        assert(base <= s < 2 * base) by (nonlinear_arith)
            requires
                p <= n < 2 * p,
                p * q == base,
                s == n * q,
                q > 0,
        ;
        let m = double::whole_magnitude(n) as int;
        assert(m == (1022 + k) * base + s);
        assert(m / base == 1023 + k);
        assert(m % base == s - base);
        lemma_pow2_adds((52 - k) as nat, (1022 + k) as nat);
        let r = pow2((1022 + k) as nat) as int;
        assert((n * q) * r == n * (q * r)) by (nonlinear_arith);
    }
}

/// An integer of at most fifty-three bits is held exactly.
pub proof fn law_integers_are_exact(n: int)
    requires
        -0x20_0000_0000_0000 < n < 0x20_0000_0000_0000,
    ensures
        units(double::of_integer(n)) == n * pow2(1074),
        !double::is_nan(double::of_integer(n)),
{
    let a = if n < 0 {
        (-n) as nat
    } else {
        n as nat
    };
    lemma_whole_magnitude(a);
    let m = double::whole_magnitude(a) as int;
    let u = pow2(1074) as int;
    assert((-n) * u == -(n * u)) by (nonlinear_arith);
    if n < 0 {
        assert(double::of_integer(n).bits == 0x8000_0000_0000_0000 + m);
    } else {
        assert(double::of_integer(n).bits == m);
    }
}

/// Truncation drops the fraction of a number that fits 64 bits: the result is the whole
/// number next to it towards zero.
pub proof fn law_truncation_drops_the_fraction(d: Double)
    requires
        !double::is_nan(d),
        double::exponent(d) < 1023 + 63,
    ensures
        units(d) >= 0 ==> double::truncated(d) >= 0 && double::truncated(d) * pow2(1074) <= units(d)
            < (double::truncated(d) + 1) * pow2(1074),
        units(d) <= 0 ==> double::truncated(d) <= 0 && (double::truncated(d) - 1) * pow2(1074)
            < units(d) <= double::truncated(d) * pow2(1074),
{
    let base = 0x10_0000_0000_0000int;
    let m = double::magnitude(d);
    let f = double::exponent(d);
    let sig = double::significand(d);
    let t = if f < 1023 {
        0
    } else {
        double::whole_part(d)
    };
    let u = pow2(1074) as int;
    let v = units_of(m);
    lemma_pow2_pos(1074);
    lemma2_to64();
    lemma_pow2_adds(32, 20);
    lemma_pow2_adds(32, 21);
    assert(t >= 0 && t * u <= v < (t + 1) * u) by {
        if f < 1023 {
            assert(t * u == 0 && (t + 1) * u == u) by (nonlinear_arith)
                requires
                    t == 0,
            ;
            if f == 0 {
                lemma_pow2_strictly_increases(52, 1074);
            } else {
                let p = pow2((f - 1) as nat) as int;
                lemma_pow2_pos((f - 1) as nat);
                lemma_pow2_adds(53, (f - 1) as nat);
                if f + 52 < 1074 {
                    lemma_pow2_strictly_increases((f + 52) as nat, 1074);
                }
                assert(sig * p < 2 * base * p) by (nonlinear_arith)
                    requires
                        sig < 2 * base,
                        p > 0,
                ;
                assert(sig * p >= 0) by (nonlinear_arith)
                    requires
                        sig >= 0,
                        p > 0,
                ;
            }
        } else {
            let e = f - 1023;
            if e <= 52 {
                let p = pow2((52 - e) as nat) as int;
                let r = pow2((f - 1) as nat) as int;
                lemma_pow2_pos((52 - e) as nat);
                lemma_pow2_pos((f - 1) as nat);
                lemma_pow2_adds((52 - e) as nat, (f - 1) as nat);
                vstd::arithmetic::div_mod::lemma_fundamental_div_mod(sig, p);
                vstd::arithmetic::div_mod::lemma_mod_bound(sig, p);
                assert(t == sig / p);
                let rest = sig % p;
                assert(sig == p * t + rest);
                assert(sig * r == t * (p * r) + rest * r) by (nonlinear_arith)
                    requires
                        sig == p * t + rest,
                ;
                assert(0 <= rest * r < p * r) by (nonlinear_arith)
                    requires
                        0 <= rest < p,
                        r > 0,
                ;
                assert((t + 1) * (p * r) == t * (p * r) + p * r) by (nonlinear_arith);
                vstd::arithmetic::div_mod::lemma_div_pos_is_pos(sig, p);
            } else {
                let p = pow2((e - 52) as nat) as int;
                lemma_pow2_pos((e - 52) as nat);
                lemma_pow2_adds((e - 52) as nat, 1074);
                assert(sig * (p * u) == (sig * p) * u) by (nonlinear_arith);
                assert((t + 1) * u == t * u + u) by (nonlinear_arith);
                assert(sig * p >= 0) by (nonlinear_arith)
                    requires
                        sig >= 0,
                        p > 0,
                ;
            }
        }
    }
    assert((-t) * u == -(t * u) && (-t - 1) * u == -((t + 1) * u)) by (nonlinear_arith);
    if v == 0 && t > 0 {
        assert(t * u > 0) by (nonlinear_arith)
            requires
                t > 0,
                u > 0,
        ;
    }
}

/// A whole number is its own truncation.
pub proof fn law_whole_numbers_are_kept(n: int)
    requires
        -0x20_0000_0000_0000 < n < 0x20_0000_0000_0000,
    ensures
        double::truncated(double::of_integer(n)) == n,
{
    let d = double::of_integer(n);
    let u = pow2(1074) as int;
    let t = double::truncated(d);
    law_integers_are_exact(n);
    lemma_pow2_pos(1074);
    let a = if n < 0 {
        (-n) as nat
    } else {
        n as nat
    };
    lemma_whole_magnitude(a);
    if n != 0 {
        lemma_top_bit_bounds(a);
        let k = double::top_bit(a);
        lemma2_to64();
        lemma_pow2_adds(32, 20);
        if k > 52 {
            lemma_pow2_unfold(53);
            if k > 53 {
                lemma_pow2_strictly_increases(53, k);
            }
        }
        lemma_field_of_whole(a);
    }
    law_truncation_drops_the_fraction(d);
    if n >= 0 {
        assert(n * u >= 0) by (nonlinear_arith)
            requires
                n >= 0,
                u > 0,
        ;
        assert(t == n) by (nonlinear_arith)
            requires
                t * u <= n * u < (t + 1) * u,
                u > 0,
        ;
    } else {
        assert(n * u <= 0) by (nonlinear_arith)
            requires
                n <= 0,
                u > 0,
        ;
        assert(t == n) by (nonlinear_arith)
            requires
                (t - 1) * u < n * u <= t * u,
                u > 0,
        ;
    }
}

proof fn lemma_field_of_whole(n: nat)
    requires
        0 < n < 0x20_0000_0000_0000,
    ensures
        double::whole_magnitude(n) / 0x10_0000_0000_0000 <= 1075,
{
    let k = double::top_bit(n);
    lemma_top_bit_bounds(n);
    lemma2_to64();
    lemma_pow2_adds(32, 20);
    if k > 52 {
        lemma_pow2_unfold(53);
        if k > 53 {
            lemma_pow2_strictly_increases(53, k);
        }
    }
    let p = pow2(k) as int;
    let q = pow2((52 - k) as nat) as int;
    lemma_pow2_adds(k, (52 - k) as nat);
    lemma_pow2_pos((52 - k) as nat);
    assert(n * q < 2 * 0x10_0000_0000_0000) by (nonlinear_arith)
        requires
            n < 2 * p,
            p * q == 0x10_0000_0000_0000,
            q > 0,
    ;
}

/// A byte that went through a number comes back as it was.
pub proof fn law_bytes_survive_as_numbers(n: u8)
    ensures
        double::truncated_byte(double::of_integer(n as int)) == n,
{
    law_whole_numbers_are_kept(n as int);
}

/// Truncation into a byte stays between its bounds and grows with the number.
pub proof fn law_bytes_are_clamped(d: Double)
    ensures
        0 <= double::truncated_byte(d) <= 255,
        double::truncated(d) <= 0 ==> double::truncated_byte(d) == 0,
        0 <= double::truncated(d) <= 255 ==> double::truncated_byte(d) == double::truncated(d),
        double::truncated(d) >= 255 ==> double::truncated_byte(d) == 255,
        double::is_nan(d) ==> double::truncated(d) == 0,
{
}

/// A number in the normal range of single precision is rounded by half of its unit there at
/// most, to a pattern with the last twenty-nine bits clear, and one beyond that range
/// becomes an infinity; the sign stays, and so does what is not a number.
pub proof fn law_narrowing_rounds_to_the_nearest(d: Double)
    ensures
        double::is_nan(d) ==> double::narrowed(d) == d,
        !double::is_nan(d) ==> double::is_negative(double::narrowed(d)) == double::is_negative(d),
        !double::is_nan(d) && double::exponent(d) >= 897 ==> {
            let m = double::magnitude(d);
            let r = double::magnitude(double::narrowed(d));
            &&& r <= 0x7ff0_0000_0000_0000
            &&& r % 0x2000_0000 == 0
            &&& m < 0x47ef_ffff_f000_0000 ==> -0x1000_0000 <= r - m <= 0x1000_0000
            &&& m >= 0x47ef_ffff_f000_0000 ==> r == 0x7ff0_0000_0000_0000
        },
        double::exponent(d) <= 872 ==> double::magnitude(double::narrowed(d)) == 0,
{
    let m = double::magnitude(d);
    if !double::is_nan(d) && double::exponent(d) >= 897 {
        let r = double::rounded(m as nat, 0x2000_0000) * 0x2000_0000;
        assert(-0x1000_0000 <= r - m <= 0x1000_0000);
        assert(r % 0x2000_0000 == 0);
    } else if !double::is_nan(d) && double::exponent(d) > 872 {
        let field = double::exponent(d);
        let sig = double::significand(d) as nat;
        let unit = pow2((926 - field) as nat);
        let q = double::rounded(sig, unit);
        lemma2_to64();
        lemma_pow2_pos((926 - field) as nat);
        if 926 - field > 30 {
            lemma_pow2_strictly_increases(30, (926 - field) as nat);
        }
        assert(sig / unit <= sig / 0x4000_0000) by {
            vstd::arithmetic::div_mod::lemma_div_is_ordered_by_denominator(
                sig as int,
                0x4000_0000,
                unit as int,
            );
        }
        if q > 0 {
            lemma_whole_magnitude(q);
            lemma_top_bit_bounds(q);
        }
        assert(double::whole_magnitude(q) < 0x7ff0_0000_0000_0000);
        if q > 0 {
            assert(double::whole_magnitude(q) >= 1022 * 0x10_0000_0000_0000);
        }
    }
}

/// The numbers that rules are written with.
pub proof fn lemma_named_numbers()
    ensures
        double::of_integer(0) == (Double { bits: 0 }),
        double::of_integer(1) == (Double { bits: 0x3ff0_0000_0000_0000 }),
        double::of_integer(2) == (Double { bits: 0x4000_0000_0000_0000 }),
        double::of_integer(3) == (Double { bits: 0x4008_0000_0000_0000 }),
        double::of_integer(12) == (Double { bits: 0x4028_0000_0000_0000 }),
        double::of_integer(15) == (Double { bits: 0x402e_0000_0000_0000 }),
        double::of_integer(17) == (Double { bits: 0x4031_0000_0000_0000 }),
        double::of_integer(20) == (Double { bits: 0x4034_0000_0000_0000 }),
        double::of_integer(30) == (Double { bits: 0x403e_0000_0000_0000 }),
        double::of_integer(365) == (Double { bits: 0x4076_d000_0000_0000 }),
        double::of_integer(-99_999) == (Double { bits: 0xc0f8_69f0_0000_0000 }),
{
    lemma2_to64();
    reveal_with_fuel(double::top_bit, 18);
    lemma_pow2_adds(32, 4);
    lemma_pow2_adds(32, 12);
    lemma_pow2_adds(32, 16);
    lemma_pow2_adds(32, 17);
    lemma_pow2_adds(32, 18);
    lemma_pow2_adds(32, 19);
    lemma_pow2_adds(32, 20);
}

} // verus!
