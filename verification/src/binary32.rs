//! IEEE 754 single-precision numbers held by their bit patterns, and the one
//! piece of their arithmetic that sizing an overlay needs: a pixel count
//! times a fraction between zero and one, cut off to whole pixels.
//!
//! The result is the one that the hardware gives for converting the count to
//! single precision, multiplying, and converting the product to a `u32`. A
//! finite number is a whole significand below `2^24` times a power of two, so
//! the count as single precision holds it is the count rounded to 24
//! significant bits, ties to even, and the product is the product of the two
//! significands, rounded likewise, times the fraction's power of two. The
//! fraction's power of two is at least `2^-149`, the spacing of the smallest
//! numbers, and at most `2^-23`, so no product is too small or too large to be
//! held.

use vstd::arithmetic::power2::pow2;
use vstd::prelude::*;

verus! {

/// How many low bits of `n` do not fit into 24 significant bits.
pub open spec fn dropped_bits(n: nat) -> nat
    decreases n,
{
    if n < 0x100_0000 {
        0
    } else {
        1 + dropped_bits(n / 2)
    }
}

/// The multiple of `unit` that is nearest to `n`; of two that are equally near,
/// the even multiple.
pub open spec fn round_ties_even(n: nat, unit: nat) -> nat {
    let q = n / unit;
    let r = n % unit;
    if 2 * r > unit || (2 * r == unit && q % 2 == 1) {
        (q + 1) * unit
    } else {
        q * unit
    }
}

/// `n` rounded to 24 significant bits, ties to even.
pub open spec fn round24(n: nat) -> nat {
    round_ties_even(n, pow2(dropped_bits(n)))
}

/// A single-precision number, given by its bits: one for the sign, eight for
/// the exponent, twenty-three for the fraction.
#[derive(Debug, Clone, Copy, PartialEq, Eq, Structural)]
pub struct Binary32 {
    pub bits: u32,
}

impl Binary32 {
    /// Whether the sign bit is set.
    pub open spec fn is_negative(self) -> bool {
        self.bits >= 0x8000_0000
    }

    /// The eight exponent bits.
    pub open spec fn exponent_field(self) -> nat {
        (self.bits as nat / 0x80_0000) % 0x100
    }

    /// The twenty-three fraction bits.
    pub open spec fn fraction_field(self) -> nat {
        self.bits as nat % 0x80_0000
    }

    /// Neither an infinity nor a NaN.
    pub open spec fn is_finite(self) -> bool {
        self.exponent_field() < 0xff
    }

    /// The integer `m` for which a finite number has the magnitude
    /// `m * 2^exponent()`.
    pub open spec fn significand(self) -> nat {
        if self.exponent_field() == 0 {
            self.fraction_field()
        } else {
            0x80_0000 + self.fraction_field()
        }
    }

    /// The power of two that the significand of a finite number is scaled by.
    pub open spec fn exponent(self) -> int {
        if self.exponent_field() == 0 {
            -149
        } else {
            self.exponent_field() - 150
        }
    }

    /// The number lies between zero and one, both included: it is finite, not
    /// below zero, and `significand() * 2^exponent()` is at most one.
    pub open spec fn is_unit_fraction(self) -> bool {
        &&& self.is_finite()
        &&& !self.is_negative() || self.significand() == 0
        &&& self.significand() * pow2((self.exponent() + 149) as nat) <= pow2(149)
    }

    /// What `extent` pixels times this fraction come to in whole pixels: the
    /// extent is rounded to single precision, the product is rounded to single
    /// precision, what lies behind the binary point is dropped, and a result
    /// beyond `u32::MAX` becomes `u32::MAX`.
    pub open spec fn scaled(self, extent: u32) -> u32
        recommends
            self.is_unit_fraction(),
    {
        let product = round24(round24(extent as nat) * self.significand());
        let whole = product / pow2((-self.exponent()) as nat);
        if whole > u32::MAX {
            u32::MAX
        } else {
            whole as u32
        }
    }

    /// The number with the given bits.
    pub fn from_bits(bits: u32) -> (number: Binary32)
        ensures
            number.bits == bits,
    {
        Binary32 { bits }
    }

    /// The bits of the number.
    pub fn to_bits(&self) -> (bits: u32)
        ensures
            bits == self.bits,
    {
        self.bits
    }

    /// Whether the number lies between zero and one, both included.
    pub fn in_unit_interval(&self) -> (within: bool)
        ensures
            within == self.is_unit_fraction(),
    {
        proof {
            lemma_unit_fraction_bits(*self);
        }
        self.bits <= 0x3f80_0000 || self.bits == 0x8000_0000
    }

    /// `extent` pixels times this fraction, in whole pixels.
    pub fn scale(&self, extent: u32) -> (size: u32)
        requires
            self.is_unit_fraction(),
        ensures
            size == self.scaled(extent),
    {
        let field: u32 = (self.bits / 0x80_0000) % 0x100;
        let fraction: u32 = self.bits % 0x80_0000;
        proof {
            lemma_unit_fraction_bits(*self);
            vstd::arithmetic::power2::lemma2_to64();
            vstd::arithmetic::power2::lemma2_to64_rest();
        }
        let significand: u64 = if field == 0 {
            fraction as u64
        } else {
            0x80_0000u64 + fraction as u64
        };
        let shift: u32 = if field == 0 {
            149
        } else {
            150 - field
        };
        let rounded_extent = round_to_24_bits(extent as u64);
        proof {
            lemma_power_of_two_fits(9);
            lemma_round24_at_most(extent as nat, 0x1_0000_0000);
            assert(rounded_extent * significand <= 0x100_0000_0000_0000) by (nonlinear_arith)
                requires
                    rounded_extent <= 0x1_0000_0000,
                    significand <= 0x100_0000,
            ;
        }
        let product = round_to_24_bits(rounded_extent * significand);
        proof {
            lemma_power_of_two_fits(33);
            lemma_round24_at_most((rounded_extent * significand) as nat, 0x100_0000_0000_0000);
        }
        let whole: u64 = if shift >= 64 {
            proof {
                if shift > 64 {
                    vstd::arithmetic::power2::lemma_pow2_strictly_increases(64, shift as nat);
                }
                vstd::arithmetic::div_mod::lemma_basic_div(
                    product as int,
                    pow2(shift as nat) as int,
                );
            }
            0
        } else {
            proof {
                vstd::bits::lemma_u64_shr_is_div(product, shift as u64);
            }
            product >> shift
        };
        if whole > u32::MAX as u64 {
            u32::MAX
        } else {
            whole as u32
        }
    }

    /// A fraction of an extent is no more than the extent as single precision
    /// holds it.
    pub proof fn lemma_scaled_at_most_rounded(self, extent: u32)
        requires
            self.is_unit_fraction(),
        ensures
            self.scaled(extent) <= round24(extent as nat),
    {
        let rounded = round24(extent as nat);
        let significand = self.significand();
        let shift = (-self.exponent()) as nat;
        let rest = (149 - shift) as nat;
        lemma_unit_fraction_bits(self);
        vstd::arithmetic::power2::lemma_pow2_pos(shift);
        vstd::arithmetic::power2::lemma_pow2_pos(rest);
        vstd::arithmetic::power2::lemma_pow2_adds(shift, rest);
        assert(significand <= pow2(shift)) by (nonlinear_arith)
            requires
                significand * pow2(rest) <= pow2(shift) * pow2(rest),
                pow2(rest) > 0,
        ;
        assert(rounded * significand <= rounded * pow2(shift)) by (nonlinear_arith)
            requires
                significand <= pow2(shift),
        ;
        lemma_round24_fits(extent as nat);
        lemma_fits_shifted(rounded, shift);
        lemma_round24_at_most(rounded * significand, rounded * pow2(shift));
        vstd::arithmetic::div_mod::lemma_div_is_ordered(
            round24(rounded * significand) as int,
            (rounded * pow2(shift)) as int,
            pow2(shift) as int,
        );
        vstd::arithmetic::div_mod::lemma_div_multiples_vanish(rounded as int, pow2(shift) as int);
        assert(rounded * pow2(shift) == pow2(shift) * rounded) by (nonlinear_arith);
    }
}

/// `n` rounded to 24 significant bits, ties to even.
fn round_to_24_bits(n: u64) -> (rounded: u64)
    requires
        n <= 0x4000_0000_0000_0000,
    ensures
        rounded == round24(n as nat),
{
    let mut unit: u64 = 1;
    let mut q: u64 = n;
    let ghost mut k: nat = 0;
    proof {
        vstd::arithmetic::power2::lemma2_to64();
    }
    while q >= 0x100_0000
        invariant
            n <= 0x4000_0000_0000_0000,
            unit == pow2(k),
            1 <= unit <= 0x80_0000_0000,
            q == n / unit,
            unit * q <= n,
            dropped_bits(n as nat) == k + dropped_bits(q as nat),
        decreases q,
    {
        proof {
            assert(unit <= 0x40_0000_0000) by (nonlinear_arith)
                requires
                    unit * q <= n,
                    q >= 0x100_0000,
                    n <= 0x4000_0000_0000_0000,
            ;
            vstd::arithmetic::div_mod::lemma_div_denominator(n as int, unit as int, 2);
            vstd::arithmetic::power2::lemma_pow2_unfold(k + 1);
            assert((unit * 2) * (q / 2) <= unit * q) by (nonlinear_arith)
                requires
                    2 * (q / 2) <= q,
            ;
            k = k + 1;
        }
        q = q / 2;
        unit = unit * 2;
    }
    let r = n % unit;
    proof {
        assert((q + 1) * unit == q * unit + unit && q * unit == unit * q) by (nonlinear_arith);
    }
    if 2 * r > unit || (2 * r == unit && q % 2 == 1) {
        (q + 1) * unit
    } else {
        q * unit
    }
}

/// The numbers between zero and one are those from `0.0` (all bits clear) up
/// to `1.0` (`0x3f80_0000`) in the order of their bits, and `-0.0`.
pub proof fn lemma_unit_fraction_bits(x: Binary32)
    ensures
        x.is_unit_fraction() <==> (x.bits <= 0x3f80_0000 || x.bits == 0x8000_0000),
{
    let field = x.exponent_field();
    let significand = x.significand();
    let k = (x.exponent() + 149) as nat;
    vstd::arithmetic::power2::lemma2_to64();
    vstd::arithmetic::power2::lemma_pow2_pos(149);
    vstd::arithmetic::power2::lemma_pow2_pos(k);
    if x.bits >= 0x8000_0000 {
        // below zero, but for -0.0
        if x.bits == 0x8000_0000 {
            assert(significand == 0);
            assert(significand * pow2(k) == 0) by (nonlinear_arith)
                requires
                    significand == 0,
            ;
        } else {
            assert(significand != 0);
        }
    } else if field < 127 {
        // below one: the significand is below 2^24, and k is at most 125
        assert(x.bits < 0x3f80_0000);
        assert(significand < pow2(24));
        vstd::arithmetic::power2::lemma_pow2_adds(24, k);
        assert(pow2(24 + k) <= pow2(149)) by {
            if 24 + k < 149 {
                vstd::arithmetic::power2::lemma_pow2_strictly_increases(24 + k, 149);
            }
        }
        assert(significand * pow2(k) <= pow2(24) * pow2(k)) by (nonlinear_arith)
            requires
                significand < pow2(24),
        ;
    } else if field == 127 {
        // one, where the fraction bits are clear, and above one, where they are not
        assert(k == 126);
        vstd::arithmetic::power2::lemma_pow2_adds(23, 126);
        assert(pow2(23) * pow2(126) == pow2(149));
        if x.bits == 0x3f80_0000 {
            assert(significand == pow2(23));
        } else {
            assert(x.bits > 0x3f80_0000);
            assert(significand > pow2(23));
            assert(significand * pow2(126) > pow2(23) * pow2(126)) by (nonlinear_arith)
                requires
                    significand > pow2(23),
                    pow2(126) > 0,
            ;
        }
    } else if field < 255 {
        // two and above: the significand is at least 2^23, and k at least 127
        assert(x.bits > 0x3f80_0000);
        assert(significand >= pow2(23));
        assert(k >= 127);
        vstd::arithmetic::power2::lemma_pow2_adds(23, k);
        vstd::arithmetic::power2::lemma_pow2_strictly_increases(149, 23 + k);
        assert(significand * pow2(k) >= pow2(23) * pow2(k)) by (nonlinear_arith)
            requires
                significand >= pow2(23),
        ;
    } else {
        // an infinity or a NaN
        assert(x.bits > 0x3f80_0000);
    }
}

/// A whole number up to `2^24` is its own rounding.
pub proof fn lemma_round24_exact(n: nat)
    requires
        n <= 0x100_0000,
    ensures
        round24(n) == n,
{
    vstd::arithmetic::power2::lemma2_to64();
    if n == 0x100_0000 {
        assert(dropped_bits(n) == 1 + dropped_bits(n / 2));
        assert(dropped_bits(n) == 1);
    }
}

/// Whether `n` has at most 24 significant bits.
spec fn fits_24_bits(n: nat) -> bool {
    n % pow2(dropped_bits(n)) == 0
}

/// `2^(23 + k)` has 24 significant bits.
proof fn lemma_power_of_two_fits(k: nat)
    ensures
        fits_24_bits(0x80_0000 * pow2(k)),
{
    lemma_dropped_bits_of_shifted(0x80_0000, k);
    vstd::arithmetic::power2::lemma_pow2_pos(k);
    vstd::arithmetic::div_mod::lemma_mod_multiples_basic(0x80_0000, pow2(k) as int);
}

/// A larger number drops at least as many bits.
proof fn lemma_dropped_bits_monotone(m: nat, n: nat)
    requires
        m <= n,
    ensures
        dropped_bits(m) <= dropped_bits(n),
    decreases n,
{
    if m >= 0x100_0000 {
        lemma_dropped_bits_monotone(m / 2, n / 2);
    }
}

/// A number of 24 bits, shifted left by `k`, drops `k` bits.
proof fn lemma_dropped_bits_of_shifted(q: nat, k: nat)
    requires
        q < 0x100_0000,
        k > 0 ==> q >= 0x80_0000,
    ensures
        dropped_bits(q * pow2(k)) == k,
    decreases k,
{
    vstd::arithmetic::power2::lemma2_to64();
    if k == 0 {
        assert(q * pow2(0) == q);
    } else {
        let rest = (k - 1) as nat;
        vstd::arithmetic::power2::lemma_pow2_unfold(k);
        vstd::arithmetic::power2::lemma_pow2_pos(rest);
        assert(q * pow2(k) == 2 * (q * pow2(rest)) && q * pow2(rest) >= q) by (nonlinear_arith)
            requires
                pow2(k) == 2 * pow2(rest),
                pow2(rest) > 0,
        ;
        lemma_dropped_bits_of_shifted(q, rest);
    }
}

/// What is left of `n` without the bits it drops has 24 bits, the highest of
/// them set if any bit was dropped.
proof fn lemma_kept_bits(n: nat)
    ensures
        n / pow2(dropped_bits(n)) < 0x100_0000,
        dropped_bits(n) > 0 ==> n / pow2(dropped_bits(n)) >= 0x80_0000,
    decreases n,
{
    vstd::arithmetic::power2::lemma2_to64();
    if n >= 0x100_0000 {
        let k = dropped_bits(n / 2);
        lemma_kept_bits(n / 2);
        vstd::arithmetic::power2::lemma_pow2_unfold(k + 1);
        vstd::arithmetic::power2::lemma_pow2_pos(k);
        vstd::arithmetic::div_mod::lemma_div_denominator(n as int, 2, pow2(k) as int);
    }
}

/// Twice a number of 24 significant bits has 24 significant bits.
proof fn lemma_fits_doubled(n: nat)
    requires
        fits_24_bits(n),
    ensures
        fits_24_bits(2 * n),
{
    vstd::arithmetic::power2::lemma2_to64();
    if 2 * n >= 0x100_0000 {
        let k = dropped_bits(n);
        assert(dropped_bits(2 * n) == 1 + dropped_bits((2 * n) / 2));
        vstd::arithmetic::power2::lemma_pow2_unfold(k + 1);
        vstd::arithmetic::power2::lemma_pow2_pos(k);
        vstd::arithmetic::div_mod::lemma_fundamental_div_mod(n as int, pow2(k) as int);
        let j = n / pow2(k);
        assert(2 * n == j * (2 * pow2(k))) by (nonlinear_arith)
            requires
                n == pow2(k) * j,
        ;
        vstd::arithmetic::div_mod::lemma_mod_multiples_basic(j as int, pow2(k + 1) as int);
    }
}

/// A number of 24 significant bits, shifted left, has 24 significant bits.
proof fn lemma_fits_shifted(n: nat, shift: nat)
    requires
        fits_24_bits(n),
    ensures
        fits_24_bits(n * pow2(shift)),
    decreases shift,
{
    vstd::arithmetic::power2::lemma2_to64();
    if shift == 0 {
        assert(n * pow2(0) == n);
    } else {
        let rest = (shift - 1) as nat;
        lemma_fits_shifted(n, rest);
        vstd::arithmetic::power2::lemma_pow2_unfold(shift);
        assert(n * pow2(shift) == 2 * (n * pow2(rest))) by (nonlinear_arith)
            requires
                pow2(shift) == 2 * pow2(rest),
        ;
        lemma_fits_doubled(n * pow2(rest));
    }
}

/// Rounding gives a number of 24 significant bits.
proof fn lemma_round24_fits(n: nat)
    ensures
        fits_24_bits(round24(n)),
{
    let k = dropped_bits(n);
    let unit = pow2(k);
    let q = n / unit;
    vstd::arithmetic::power2::lemma_pow2_pos(k);
    lemma_kept_bits(n);
    let kept = if round24(n) == q * unit {
        q
    } else {
        q + 1
    };
    assert(round24(n) == kept * unit);
    if kept < 0x100_0000 {
        lemma_dropped_bits_of_shifted(kept, k);
        vstd::arithmetic::div_mod::lemma_mod_multiples_basic(kept as int, unit as int);
    } else {
        vstd::arithmetic::power2::lemma_pow2_unfold(k + 1);
        assert(kept * unit == 0x80_0000 * pow2(k + 1)) by (nonlinear_arith)
            requires
                kept == 0x100_0000,
                pow2(k + 1) == 2 * unit,
        ;
        lemma_dropped_bits_of_shifted(0x80_0000, k + 1);
        vstd::arithmetic::power2::lemma_pow2_pos(k + 1);
        vstd::arithmetic::div_mod::lemma_mod_multiples_basic(0x80_0000, pow2(k + 1) as int);
    }
}

/// Rounding does not pass a number of 24 significant bits that lies above.
proof fn lemma_round24_at_most(n: nat, bound: nat)
    requires
        n <= bound,
        fits_24_bits(bound),
    ensures
        round24(n) <= bound,
{
    let k = dropped_bits(n);
    let unit = pow2(k);
    let more = (dropped_bits(bound) - k) as nat;
    lemma_dropped_bits_monotone(n, bound);
    vstd::arithmetic::power2::lemma_pow2_pos(k);
    vstd::arithmetic::power2::lemma_pow2_pos(dropped_bits(bound));
    vstd::arithmetic::power2::lemma_pow2_adds(k, more);
    vstd::arithmetic::div_mod::lemma_fundamental_div_mod(
        bound as int,
        pow2(dropped_bits(bound)) as int,
    );
    vstd::arithmetic::div_mod::lemma_fundamental_div_mod(n as int, unit as int);
    let j = bound / pow2(dropped_bits(bound));
    let m = j * pow2(more);
    let q = n / unit;
    assert(bound == m * unit) by (nonlinear_arith)
        requires
            bound == pow2(dropped_bits(bound)) * j,
            pow2(dropped_bits(bound)) == unit * pow2(more),
            m == j * pow2(more),
    ;
    assert(q * unit == unit * q) by (nonlinear_arith);
    if n % unit != 0 {
        assert((q + 1) * unit <= m * unit) by (nonlinear_arith)
            requires
                q * unit < m * unit,
                unit > 0,
        ;
    }
}

} // verus!
