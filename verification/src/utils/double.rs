//! Double-precision numbers by their IEEE 754 bit patterns. Measurements keep the bits
//! that they arrived with, and everything that is decided about them is decided on
//! integers.

use vstd::prelude::*;

verus! {

/// A double-precision number, held as its bit pattern: one sign bit, eleven bits of
/// exponent and fifty-two of fraction. A single-precision number is held by the double
/// of the same value.
#[derive(Debug, Clone, Copy, PartialEq, Eq, Structural)]
pub struct Double {
    pub bits: u64,
}

/// Whether the sign bit is set.
pub open spec fn is_negative(d: Double) -> bool {
    d.bits >= 0x8000_0000_0000_0000
}

/// The bits below the sign.
pub open spec fn magnitude(d: Double) -> int {
    if is_negative(d) {
        d.bits - 0x8000_0000_0000_0000
    } else {
        d.bits as int
    }
}

/// Not a number: the exponent is all ones and the fraction is not zero.
pub open spec fn is_nan(d: Double) -> bool {
    magnitude(d) > 0x7ff0_0000_0000_0000
}

/// The place of a number among the numbers. Both zeros have the same place.
pub open spec fn order(d: Double) -> int {
    if is_negative(d) {
        -magnitude(d)
    } else {
        magnitude(d)
    }
}

/// `a < b`, false where either is not a number.
pub open spec fn lt(a: Double, b: Double) -> bool {
    !is_nan(a) && !is_nan(b) && order(a) < order(b)
}

/// `a <= b`, false where either is not a number.
pub open spec fn le(a: Double, b: Double) -> bool {
    !is_nan(a) && !is_nan(b) && order(a) <= order(b)
}

/// `a == b`, false where either is not a number.
pub open spec fn eq(a: Double, b: Double) -> bool {
    !is_nan(a) && !is_nan(b) && order(a) == order(b)
}

/// The place of any bit pattern in the IEEE total order, in which negative zero comes
/// before zero and the patterns that are not numbers come first or last.
pub open spec fn total_order(d: Double) -> int {
    if is_negative(d) {
        -magnitude(d) - 1
    } else {
        magnitude(d)
    }
}

/// The exponent field.
pub open spec fn exponent(d: Double) -> int {
    magnitude(d) / 0x10_0000_0000_0000
}

/// The significand of a normal number: the fraction behind the implicit one.
pub open spec fn significand(d: Double) -> int {
    0x10_0000_0000_0000 + magnitude(d) % 0x10_0000_0000_0000
}

/// The absolute value of a number from 1 on and below 2^63, without its fraction.
pub open spec fn whole_part(d: Double) -> int {
    let e = exponent(d) - 1023;
    if e <= 52 {
        significand(d) / vstd::arithmetic::power2::pow2((52 - e) as nat) as int
    } else {
        significand(d) * vstd::arithmetic::power2::pow2((e - 52) as nat)
    }
}

/// The number rounded towards zero; 0 where it is not a number, and the nearest 64-bit
/// integer where it lies beyond them.
pub open spec fn truncated(d: Double) -> int {
    if is_nan(d) || exponent(d) < 1023 {
        0
    } else if exponent(d) >= 1023 + 63 {
        if is_negative(d) {
            i64::MIN as int
        } else {
            i64::MAX as int
        }
    } else if is_negative(d) {
        -whole_part(d)
    } else {
        whole_part(d)
    }
}

/// The number rounded towards zero and brought into a byte's range.
pub open spec fn truncated_byte(d: Double) -> int {
    if truncated(d) < 0 {
        0
    } else if truncated(d) > 255 {
        255
    } else {
        truncated(d)
    }
}

impl Double {
    /// 0.
    pub fn zero() -> (r: Double)
        ensures
            r.bits == 0,
    {
        Double { bits: 0 }
    }

    /// The bits below the sign.
    fn magnitude(self) -> (r: u64)
        ensures
            r == magnitude(self),
            r < 0x8000_0000_0000_0000,
    {
        if self.bits >= 0x8000_0000_0000_0000 {
            self.bits - 0x8000_0000_0000_0000
        } else {
            self.bits
        }
    }

    /// Whether this is not a number.
    pub fn is_nan(self) -> (r: bool)
        ensures
            r == is_nan(self),
    {
        self.magnitude() > 0x7ff0_0000_0000_0000
    }

    /// The place among the numbers.
    pub fn order(self) -> (r: i64)
        ensures
            r == order(self),
    {
        let m: i64 = self.magnitude() as i64;
        if self.bits >= 0x8000_0000_0000_0000 {
            -m
        } else {
            m
        }
    }

    /// The place in the IEEE total order.
    pub fn total_order(self) -> (r: i64)
        ensures
            r == total_order(self),
    {
        let m: i64 = self.magnitude() as i64;
        if self.bits >= 0x8000_0000_0000_0000 {
            -m - 1
        } else {
            m
        }
    }

    /// `self < other`.
    pub fn less_than(self, other: Double) -> (r: bool)
        ensures
            r == lt(self, other),
    {
        !self.is_nan() && !other.is_nan() && self.order() < other.order()
    }

    /// `self <= other`.
    pub fn at_most(self, other: Double) -> (r: bool)
        ensures
            r == le(self, other),
    {
        !self.is_nan() && !other.is_nan() && self.order() <= other.order()
    }

    /// `self == other`.
    pub fn equals(self, other: Double) -> (r: bool)
        ensures
            r == eq(self, other),
    {
        !self.is_nan() && !other.is_nan() && self.order() == other.order()
    }

    /// The number without its sign.
    pub fn abs(self) -> (r: Double)
        ensures
            r.bits == magnitude(self),
    {
        Double { bits: self.magnitude() }
    }

    /// The number rounded towards zero.
    pub fn truncate(self) -> (r: i64)
        ensures
            r == truncated(self),
    {
        let m: u64 = self.magnitude();
        let field: u64 = m / 0x10_0000_0000_0000;
        let negative: bool = self.bits >= 0x8000_0000_0000_0000;
        if self.is_nan() || field < 1023 {
            return 0;
        }
        if field >= 1023 + 63 {
            return if negative {
                i64::MIN
            } else {
                i64::MAX
            };
        }
        let sig: u64 = 0x10_0000_0000_0000 + m % 0x10_0000_0000_0000;
        let e: u64 = field - 1023;
        let whole: u64 = if e <= 52 {
            let shift: u64 = 52 - e;
            proof {
                vstd::bits::lemma_u64_shr_is_div(sig, shift);
                vstd::arithmetic::power2::lemma_pow2_pos(shift as nat);
                vstd::arithmetic::div_mod::lemma_div_is_ordered_by_denominator(
                    sig as int,
                    1,
                    vstd::arithmetic::power2::pow2(shift as nat) as int,
                );
            }
            sig >> shift
        } else {
            let shift: u64 = e - 52;
            proof {
                vstd::arithmetic::power2::lemma2_to64();
                if shift < 10 {
                    vstd::arithmetic::power2::lemma_pow2_strictly_increases(shift as nat, 10);
                }
                assert(sig * vstd::arithmetic::power2::pow2(shift as nat) < 0x20_0000_0000_0000
                    * 1024) by (nonlinear_arith)
                    requires
                        0 <= sig < 0x20_0000_0000_0000,
                        0 < vstd::arithmetic::power2::pow2(shift as nat) <= 1024,
                ;
                vstd::bits::lemma_u64_shl_is_mul(sig, shift);
            }
            sig << shift
        };
        if negative {
            -(whole as i64)
        } else {
            whole as i64
        }
    }

    /// The number rounded towards zero and brought into a byte's range.
    pub fn truncate_byte(self) -> (r: u8)
        ensures
            r == truncated_byte(self),
    {
        let n: i64 = self.truncate();
        if n < 0 {
            0
        } else if n > 255 {
            255
        } else {
            n as u8
        }
    }
}

/// `n / 2` for a positive `n`: the significand is `n` brought to fifty-three bits, and the
/// exponent field says by how much.
pub open spec fn is_half_of(d: Double, n: nat) -> bool {
    exists|k: nat|
        {
            &&& k <= 52
            &&& #[trigger] vstd::arithmetic::power2::pow2(k) <= n
            &&& n < 2 * vstd::arithmetic::power2::pow2(k)
            &&& !is_negative(d)
            &&& exponent(d) == k + 1022
            &&& significand(d) * vstd::arithmetic::power2::pow2(k) == n * 0x10_0000_0000_0000
        }
}

impl Double {
    /// `n / 2`, exactly.
    pub fn half_of(n: u64) -> (r: Double)
        requires
            0 < n < 0x20_0000_0000_0000,
        ensures
            is_half_of(r, n as nat),
    {
        let mut k: u64 = 0;
        let mut p: u64 = 1;
        let mut q: u64 = 0x10_0000_0000_0000;
        proof {
            vstd::arithmetic::power2::lemma2_to64();
            vstd::arithmetic::power2::lemma_pow2_adds(32, 20);
        }
        while p <= n / 2
            invariant
                0 < n < 0x20_0000_0000_0000,
                k <= 52,
                p == vstd::arithmetic::power2::pow2(k as nat),
                1 <= p <= n,
                p * q == 0x10_0000_0000_0000,
                q == vstd::arithmetic::power2::pow2((52 - k) as nat),
            decreases n - p,
        {
            proof {
                vstd::arithmetic::power2::lemma_pow2_unfold((k + 1) as nat);
                if k == 52 {
                    vstd::arithmetic::power2::lemma2_to64();
                    assert(p == 0x10_0000_0000_0000) by (nonlinear_arith)
                        requires
                            p * q == 0x10_0000_0000_0000,
                            q == 1,
                    ;
                }
                vstd::arithmetic::power2::lemma_pow2_unfold((52 - k) as nat);
                vstd::arithmetic::power2::lemma_pow2_pos((51 - k) as nat);
                assert((2 * p) * (q / 2) == p * q) by (nonlinear_arith)
                    requires
                        q % 2 == 0,
                ;
            }
            k = k + 1;
            p = p * 2;
            q = q / 2;
        }
        proof {
            assert((n - p) * q < 0x10_0000_0000_0000) by (nonlinear_arith)
                requires
                    p <= n < 2 * p,
                    p * q == 0x10_0000_0000_0000,
                    q >= 0,
            ;
            assert((n - p) * q >= 0) by (nonlinear_arith)
                requires
                    p <= n,
                    q >= 0,
            ;
        }
        let fraction: u64 = (n - p) * q;
        let r = Double { bits: (k + 1022) * 0x10_0000_0000_0000 + fraction };
        proof {
            assert(exponent(r) == k + 1022);
            assert(significand(r) == 0x10_0000_0000_0000 + fraction);
            assert((p * q + (n - p) * q) * p == n * (p * q)) by (nonlinear_arith);
            assert(vstd::arithmetic::power2::pow2(k as nat) <= n);
        }
        r
    }
}

/// The place of the highest bit of `n`.
pub open spec fn top_bit(n: nat) -> nat
    decreases n,
{
    if n < 2 {
        0
    } else {
        1 + top_bit(n / 2)
    }
}

/// `n / unit` rounded to the nearest integer, and to the even one where two are as near.
pub open spec fn rounded(n: nat, unit: nat) -> nat {
    let below = n / unit;
    let rest = n % unit;
    if 2 * rest > unit || (2 * rest == unit && below % 2 == 1) {
        below + 1
    } else {
        below
    }
}

/// `n` brought to fifty-three bits, the highest of which stands for `2^k`.
pub open spec fn scaled(n: nat, k: nat) -> nat {
    if k <= 52 {
        n * vstd::arithmetic::power2::pow2((52 - k) as nat)
    } else {
        rounded(n, vstd::arithmetic::power2::pow2((k - 52) as nat))
    }
}

/// The bits below the sign of the double nearest to `n`. A significand that was rounded up
/// to the next power of two carries into the exponent.
pub open spec fn whole_magnitude(n: nat) -> nat {
    if n == 0 {
        0
    } else {
        (1022 + top_bit(n)) * 0x10_0000_0000_0000 + scaled(n, top_bit(n))
    }
}

/// The double with this magnitude and sign.
pub open spec fn of_parts(negative: bool, m: int) -> Double {
    Double {
        bits: (if negative {
            0x8000_0000_0000_0000 + m
        } else {
            m
        }) as u64,
    }
}

/// The double nearest to an integer.
pub open spec fn of_integer(n: int) -> Double {
    of_parts(
        n < 0,
        whole_magnitude(
            if n < 0 {
                -n as nat
            } else {
                n as nat
            },
        ) as int,
    )
}

/// The bits below the sign of the single-precision number nearest to a number with this
/// magnitude, as a double.
pub open spec fn narrowed_magnitude(m: int) -> int {
    let field = m / 0x10_0000_0000_0000;
    if field >= 897 {
        let r = rounded(m as nat, 0x2000_0000) * 0x2000_0000;
        if r >= 0x47f0_0000_0000_0000 {
            0x7ff0_0000_0000_0000
        } else {
            r as int
        }
    } else if field <= 872 {
        0
    } else {
        // Below 2^-126 the unit of single precision is 2^-149.
        let unit = vstd::arithmetic::power2::pow2((926 - field) as nat);
        let q = rounded((0x10_0000_0000_0000 + m % 0x10_0000_0000_0000) as nat, unit);
        if q == 0 {
            0
        } else {
            whole_magnitude(q) - 149 * 0x10_0000_0000_0000
        }
    }
}

/// The number rounded to single precision. What is not a number stays as it is.
pub open spec fn narrowed(d: Double) -> Double {
    if is_nan(d) {
        d
    } else {
        of_parts(is_negative(d), narrowed_magnitude(magnitude(d)))
    }
}

/// `n / unit` rounded to the nearest integer, and to the even one where two are as near.
fn round_to(n: u64, unit: u64) -> (r: u64)
    requires
        0 < unit <= 0x8000_0000_0000_0000,
    ensures
        r == rounded(n as nat, unit as nat),
        r <= n as int / unit as int + 1,
{
    let below: u64 = n / unit;
    let rest: u64 = n % unit;
    assert(below <= n) by (nonlinear_arith)
        requires
            below == n / unit,
            unit > 0,
    ;
    if rest > unit - rest || (rest == unit - rest && below % 2 == 1) {
        proof {
            if unit == 1 {
                assert(rest == 0);
            }
            assert(below < u64::MAX) by (nonlinear_arith)
                requires
                    below == n / unit,
                    unit >= 2,
                    n <= u64::MAX,
            ;
        }
        below + 1
    } else {
        below
    }
}

proof fn lemma_top_bit(n: nat, k: nat)
    requires
        vstd::arithmetic::power2::pow2(k) <= n < 2 * vstd::arithmetic::power2::pow2(k),
    ensures
        top_bit(n) == k,
    decreases k,
{
    vstd::arithmetic::power2::lemma2_to64();
    if k > 0 {
        vstd::arithmetic::power2::lemma_pow2_unfold(k);
        lemma_top_bit(n / 2, (k - 1) as nat);
        vstd::arithmetic::power2::lemma_pow2_pos((k - 1) as nat);
    }
}

/// The bits below the sign of the double nearest to `n`.
fn magnitude_of(n: u64) -> (r: u64)
    ensures
        r == whole_magnitude(n as nat),
        r <= 1087 * 0x10_0000_0000_0000,
        n > 0 ==> r >= 1023 * 0x10_0000_0000_0000,
{
    if n == 0 {
        return 0;
    }
    let mut k: u64 = 0;
    let mut p: u64 = 1;
    proof {
        vstd::arithmetic::power2::lemma2_to64();
    }
    while p <= n / 2
        invariant
            0 < n,
            k <= 63,
            p == vstd::arithmetic::power2::pow2(k as nat),
            1 <= p <= n,
        decreases n - p,
    {
        proof {
            vstd::arithmetic::power2::lemma_pow2_unfold((k + 1) as nat);
            if k == 63 {
                vstd::arithmetic::power2::lemma_pow2_adds(32, 31);
                vstd::arithmetic::power2::lemma2_to64();
            }
        }
        k = k + 1;
        p = p * 2;
    }
    proof {
        lemma_top_bit(n as nat, k as nat);
        vstd::arithmetic::power2::lemma2_to64();
        vstd::arithmetic::power2::lemma_pow2_adds(32, 20);
    }
    let significand: u64 = if k <= 52 {
        let shift: u64 = 52 - k;
        proof {
            let q = vstd::arithmetic::power2::pow2(shift as nat);
            vstd::arithmetic::power2::lemma_pow2_adds(k as nat, shift as nat);
            vstd::arithmetic::power2::lemma_pow2_pos(shift as nat);
            assert(n * q < 2 * (p * q)) by (nonlinear_arith)
                requires
                    n < 2 * p,
                    q > 0,
            ;
            assert(n * q >= p * q) by (nonlinear_arith)
                requires
                    n >= p,
                    q > 0,
            ;
            vstd::bits::lemma_u64_shl_is_mul(n, shift);
        }
        n << shift
    } else {
        let shift: u64 = k - 52;
        proof {
            let u = vstd::arithmetic::power2::pow2(shift as nat);
            vstd::arithmetic::power2::lemma_pow2_adds(52, shift as nat);
            vstd::arithmetic::power2::lemma_pow2_pos(shift as nat);
            vstd::arithmetic::power2::lemma2_to64();
            if shift < 11 {
                vstd::arithmetic::power2::lemma_pow2_strictly_increases(shift as nat, 11);
            }
            vstd::bits::lemma_u64_shl_is_mul(1, shift);
            assert(n as int / u as int >= 0x10_0000_0000_0000 && n as int / u as int
                <= 0x1f_ffff_ffff_ffff) by (nonlinear_arith)
                requires
                    n >= 0x10_0000_0000_0000 * u,
                    n < 2 * (0x10_0000_0000_0000 * u),
                    u > 0,
            ;
        }
        round_to(n, 1u64 << shift)
    };
    (1022 + k) * 0x10_0000_0000_0000 + significand
}

impl Double {
    /// The double nearest to an integer.
    pub fn from_integer(n: i64) -> (r: Double)
        ensures
            r == of_integer(n as int),
    {
        if n < 0 {
            let m: u64 = (-(n as i128)) as u64;
            Double { bits: 0x8000_0000_0000_0000 + magnitude_of(m) }
        } else {
            Double { bits: magnitude_of(n as u64) }
        }
    }

    /// The number rounded to single precision.
    pub fn narrow(self) -> (r: Double)
        ensures
            r == narrowed(self),
    {
        if self.is_nan() {
            return self;
        }
        let m: u64 = self.magnitude();
        let field: u64 = m / 0x10_0000_0000_0000;
        let out: u64 = if field >= 897 {
            let r: u64 = round_to(m, 0x2000_0000) * 0x2000_0000;
            if r >= 0x47f0_0000_0000_0000 {
                0x7ff0_0000_0000_0000
            } else {
                r
            }
        } else if field <= 872 {
            0
        } else {
            let shift: u64 = 926 - field;
            let sig: u64 = 0x10_0000_0000_0000 + m % 0x10_0000_0000_0000;
            proof {
                vstd::arithmetic::power2::lemma2_to64();
                vstd::arithmetic::power2::lemma_pow2_adds(32, 21);
                if shift < 53 {
                    vstd::arithmetic::power2::lemma_pow2_strictly_increases(shift as nat, 53);
                }
                vstd::arithmetic::power2::lemma_pow2_pos(shift as nat);
                vstd::bits::lemma_u64_shl_is_mul(1, shift);
            }
            let q: u64 = round_to(sig, 1u64 << shift);
            if q == 0 {
                0
            } else {
                magnitude_of(q) - 149 * 0x10_0000_0000_0000
            }
        };
        if self.bits >= 0x8000_0000_0000_0000 {
            Double { bits: 0x8000_0000_0000_0000 + out }
        } else {
            Double { bits: out }
        }
    }
}

/// Half of an integer is one double.
pub proof fn law_halves_are_unique(a: Double, b: Double, n: nat)
    requires
        is_half_of(a, n),
        is_half_of(b, n),
    ensures
        a == b,
{
    let j = choose|k: nat|
        {
            &&& k <= 52
            &&& #[trigger] vstd::arithmetic::power2::pow2(k) <= n
            &&& n < 2 * vstd::arithmetic::power2::pow2(k)
            &&& !is_negative(a)
            &&& exponent(a) == k + 1022
            &&& significand(a) * vstd::arithmetic::power2::pow2(k) == n * 0x10_0000_0000_0000
        };
    let k = choose|k: nat|
        {
            &&& k <= 52
            &&& #[trigger] vstd::arithmetic::power2::pow2(k) <= n
            &&& n < 2 * vstd::arithmetic::power2::pow2(k)
            &&& !is_negative(b)
            &&& exponent(b) == k + 1022
            &&& significand(b) * vstd::arithmetic::power2::pow2(k) == n * 0x10_0000_0000_0000
        };
    lemma_top_bit(n, j);
    lemma_top_bit(n, k);
    let p = vstd::arithmetic::power2::pow2(k);
    vstd::arithmetic::power2::lemma_pow2_pos(k);
    assert(significand(a) == significand(b)) by (nonlinear_arith)
        requires
            significand(a) * p == significand(b) * p,
            p > 0,
    ;
}

/// Of two numbers exactly one comes first, or they are equal; what is not a number
/// compares with nothing.
pub proof fn law_numbers_are_ordered(a: Double, b: Double)
    ensures
        !is_nan(a) && !is_nan(b) ==> (lt(a, b) || eq(a, b) || lt(b, a)),
        !(lt(a, b) && lt(b, a)) && !(lt(a, b) && eq(a, b)),
        le(a, b) <==> (lt(a, b) || eq(a, b)),
        is_nan(a) || is_nan(b) ==> !le(a, b) && !eq(a, b),
{
}

} // verus!
