//! Samples as 16-bit PCM.
//!
//! A recorded sample is a single-precision number and is stored by its bit pattern: a sign bit,
//! eight exponent bits and 23 fraction bits.  Full scale is the range from -1 to 1.

use vstd::arithmetic::power2::{
    lemma2_to64, lemma2_to64_rest, lemma_pow2_adds, lemma_pow2_pos, lemma_pow2_unfold, pow2,
};
use vstd::prelude::*;

use crate::single::{
    distance, is_nearest_single, nearest_magnitude, nearest_quotient, quotient_is_nearest, ratio,
    ratio_bits, ratio_bits_closed, ratio_scale, ratio_significand, round_magnitude, rounding_error,
    rounding_is_monotone, rounding_is_to_nearest, rounding_scales, spacing_bounds, HIDDEN,
};

verus! {

/// PCM value of full scale.
pub const FULL_SCALE: u64 = 32767;

/// Weight of the sign bit of a bit pattern.
pub const SIGN: u32 = 0x8000_0000;

/// The sample is negative.
pub open spec fn is_negative(bits: u32) -> bool {
    bits >= SIGN
}

/// The exponent bits.
pub open spec fn exponent(bits: u32) -> u32 {
    (bits / HIDDEN) % 256
}

/// The fraction bits.
pub open spec fn fraction(bits: u32) -> u32 {
    bits % HIDDEN
}

/// The bit pattern stands for no number.
pub open spec fn is_nan(bits: u32) -> bool {
    exponent(bits) == 255 && fraction(bits) != 0
}

/// The significand: the sample has the magnitude `significand(bits) / 2^places(bits)`.
pub open spec fn significand(bits: u32) -> nat {
    if exponent(bits) == 0 {
        fraction(bits) as nat
    } else {
        (fraction(bits) + HIDDEN) as nat
    }
}

/// Number of binary places, for a magnitude below one.
pub open spec fn places(bits: u32) -> nat {
    if exponent(bits) == 0 {
        149
    } else {
        (150 - exponent(bits)) as nat
    }
}

/// Magnitude of the PCM value: full scale times the magnitude, in single precision and then cut
/// to a whole number.  Magnitudes above one count as one, and what is no number as zero.
pub open spec fn pcm_magnitude(bits: u32) -> nat {
    if is_nan(bits) {
        0
    } else if exponent(bits) >= 127 {
        FULL_SCALE as nat
    } else {
        nearest_magnitude(significand(bits) * (FULL_SCALE as nat)) / pow2(places(bits))
    }
}

/// The PCM value of a sample.
pub open spec fn pcm_value(bits: u32) -> int {
    if is_negative(bits) {
        -(pcm_magnitude(bits) as int)
    } else {
        pcm_magnitude(bits) as int
    }
}

/// A PCM value never exceeds full scale.
pub proof fn pcm_is_within_full_scale(bits: u32)
    ensures
        pcm_magnitude(bits) <= FULL_SCALE,
        -(FULL_SCALE as int) <= pcm_value(bits) <= FULL_SCALE,
{
    if !is_nan(bits) && exponent(bits) < 127 {
        let a = significand(bits) * (FULL_SCALE as nat);
        spacing_bounds(a);
        rounding_error(a);
        lemma2_to64();
        lemma_pow2_at_least(places(bits));
        let n = nearest_magnitude(a);
        let p = pow2(places(bits));
        assert(n < 32767 * 0x100_0000);
        assert(n / p <= 32767) by (nonlinear_arith)
            requires
                n < 32767 * 0x100_0000,
                p >= 0x100_0000,
        ;
    }
}

proof fn lemma_pow2_at_least(k: nat)
    requires
        k >= 24,
    ensures
        pow2(k) >= 0x100_0000,
    decreases k,
{
    if k == 24 {
        lemma2_to64();
    } else {
        lemma_pow2_at_least((k - 1) as nat);
        lemma_pow2_unfold(k);
    }
}

/// Inverting a sample inverts its PCM value.
pub proof fn pcm_is_symmetric(bits: u32)
    requires
        bits < SIGN,
    ensures
        pcm_value((bits + SIGN) as u32) == -pcm_value(bits),
{
    let inverted = (bits + SIGN) as u32;
    assert(exponent(inverted) == exponent(bits) && fraction(inverted) == fraction(bits));
}

/// A louder sample never gets a smaller PCM value.  Bit patterns of positive samples are ordered
/// like the samples.
pub proof fn pcm_is_monotone(quiet: u32, loud: u32)
    requires
        quiet <= loud < SIGN,
        !is_nan(loud),
    ensures
        pcm_value(quiet) <= pcm_value(loud),
{
    pcm_is_within_full_scale(quiet);
    assert(!is_nan(quiet));
    if exponent(loud) < 127 {
        let a = significand(quiet);
        let b = significand(loud);
        let p = places(quiet);
        let q = places(loud);
        let k = (p - q) as nat;
        lemma_pow2_pos(k);
        lemma_pow2_pos(p);
        lemma_pow2_pos(q);
        lemma2_to64();
        lemma_pow2_adds(q, k);
        let w = pow2(k);
        let scale = FULL_SCALE as nat;
        if k == 0 {
            assert(b * w == b);
        } else {
            if k > 1 {
                vstd::arithmetic::power2::lemma_pow2_strictly_increases(1, k);
            }
            assert(b * w >= HIDDEN * 2) by (nonlinear_arith)
                requires
                    b >= HIDDEN,
                    w >= 2,
            ;
        }
        assert(a * scale <= (b * scale) * w) by (nonlinear_arith)
            requires
                a <= b * w,
        ;
        rounding_is_monotone(a * scale, (b * scale) * w);
        rounding_scales(b * scale, k);
        let x = nearest_magnitude(a * scale);
        let y = nearest_magnitude(b * scale);
        let v = pow2(q);
        assert(pow2(p) == v * w);
        vstd::arithmetic::div_mod::lemma_div_is_ordered(x as int, (y * w) as int, (v * w) as int);
        assert((y * w) / (v * w) == y / v) by {
            vstd::arithmetic::div_mod::lemma_div_denominator((w * y) as int, w as int, v as int);
            vstd::arithmetic::div_mod::lemma_div_multiples_vanish(y as int, w as int);
            assert(w * y == y * w && w * v == v * w) by (nonlinear_arith);
        }
    }
}

/// What a sample comes to.  In a bit pattern the highest bit is the sign, the next eight are the
/// exponent and the other 23 the fraction.  What is no number comes to zero, and a magnitude of one
/// or more to full scale.  Any other sample is a significand `m` over a power of two; `m * 32767` is
/// rounded to single precision, and the whole part of the quotient is the magnitude of the value.
pub proof fn samples_are_scaled_and_cut(bits: u32, rounded: nat)
    requires
        ({
            let exponent = (bits / 0x80_0000) % 256;
            let fraction = bits % 0x80_0000;
            let m = if exponent == 0 {
                fraction as nat
            } else {
                (fraction + 0x80_0000) as nat
            };
            exponent < 127 ==> is_nearest_single(m * 32767, rounded)
        }),
    ensures
        ({
            let exponent = (bits / 0x80_0000) % 256;
            let fraction = bits % 0x80_0000;
            let one = pow2(
                if exponent == 0 {
                    149
                } else {
                    (150 - exponent) as nat
                },
            );
            let size = if bits >= 0x8000_0000 {
                -pcm_value(bits)
            } else {
                pcm_value(bits)
            };
            &&& exponent == 255 && fraction != 0 ==> size == 0
            &&& exponent >= 127 && !(exponent == 255 && fraction != 0) ==> size == 32767
            &&& exponent < 127 ==> 0 <= size && size * one <= rounded < (size + 1) * one
        }),
{
    if exponent(bits) < 127 {
        let a = significand(bits) * (FULL_SCALE as nat);
        rounding_is_to_nearest(a, rounded);
        let one = pow2(places(bits));
        lemma_pow2_pos(places(bits));
        vstd::arithmetic::div_mod::lemma_fundamental_div_mod(rounded as int, one as int);
        let size = rounded / one;
        assert(size * one <= rounded < (size + 1) * one) by (nonlinear_arith)
            requires
                rounded == one * size + rounded % one,
                0 <= rounded % one < one,
        ;
    }
}

/// Divides by a power of two.
fn shift_down(a: u64, places: u32) -> (r: u64)
    ensures
        r == a as nat / pow2(places as nat),
{
    let mut rest: u64 = a;
    let mut left: u32 = places;
    while left > 0 && rest > 0
        invariant
            rest as nat / pow2(left as nat) == a as nat / pow2(places as nat),
        decreases left,
    {
        proof {
            lemma_pow2_unfold(left as nat);
            lemma_pow2_pos((left - 1) as nat);
            vstd::arithmetic::div_mod::lemma_div_denominator(
                rest as int,
                2,
                pow2((left - 1) as nat) as int,
            );
        }
        rest = rest / 2;
        left = left - 1;
    }
    proof {
        lemma_pow2_pos(left as nat);
        lemma2_to64();
        vstd::arithmetic::div_mod::lemma_div_basics(pow2(left as nat) as int);
        vstd::arithmetic::div_mod::lemma_div_basics(rest as int);
    }
    rest
}

/// Computes the PCM value of a sample.
pub fn quantize(bits: u32) -> (r: i16)
    ensures
        r == pcm_value(bits),
{
    proof {
        pcm_is_within_full_scale(bits);
    }
    let exponent: u32 = (bits / HIDDEN) % 256;
    let fraction: u32 = bits % HIDDEN;
    let magnitude: u64 = if exponent == 255 && fraction != 0 {
        0
    } else if exponent >= 127 {
        FULL_SCALE
    } else if exponent == 0 {
        shift_down(round_magnitude(fraction as u64 * FULL_SCALE), 149)
    } else {
        shift_down(round_magnitude((fraction + HIDDEN) as u64 * FULL_SCALE), 150 - exponent)
    };
    if bits >= SIGN {
        -(magnitude as i16)
    } else {
        magnitude as i16
    }
}

/// Bit pattern of the sample that a 16-bit signed sample stands for: its ratio to full scale.
pub open spec fn bits_of_signed(s: i16) -> int {
    if s < 0 {
        SIGN + ratio_bits((-s) as nat, FULL_SCALE as nat, 150)
    } else {
        ratio_bits(s as nat, FULL_SCALE as nat, 150)
    }
}

/// Converts a 16-bit signed sample.
pub fn sample_from_i16(s: i16) -> (r: u32)
    ensures
        r == bits_of_signed(s),
{
    if s == 0 {
        0
    } else if s < 0 {
        SIGN + ratio((-(s as i64)) as u64, FULL_SCALE)
    } else {
        ratio(s as u64, FULL_SCALE)
    }
}

/// Bit pattern of the sample that a 16-bit unsigned sample stands for: twice its ratio to the
/// largest value, less one, with a rounding after the division and after the subtraction.
pub open spec fn bits_of_unsigned(s: u16) -> int {
    let share = ratio_bits(s as nat, 65535, 150) as u32;
    let twice = 2 * significand(share);
    let one = pow2(places(share));
    if twice < one {
        SIGN + ratio_bits((one - twice) as nat, one, 150)
    } else {
        ratio_bits((twice - one) as nat, one, 150)
    }
}

/// How a bit pattern with significand `m` after `j` doublings reads.
proof fn lemma_parts(bits: u32, m: nat, j: nat)
    requires
        bits == (149 - j) * HIDDEN + m,
        HIDDEN <= m <= 2 * HIDDEN,
        1 <= j <= 140,
    ensures
        !is_negative(bits),
        m < 2 * HIDDEN ==> exponent(bits) == 150 - j && significand(bits) == m && places(bits) == j,
        m == 2 * HIDDEN ==> exponent(bits) == 151 - j && significand(bits) == HIDDEN && places(bits)
            == j - 1,
{
}

/// How many doublings a ratio of two 16-bit numbers takes, and what comes of them.
proof fn lemma_small_ratio(n: nat, d: nat) -> (j: nat)
    requires
        0 < n <= d + 1,
        32767 <= d <= 65535,
    ensures
        22 <= j <= 39,
        HIDDEN * d <= n * pow2(j) < 2 * (HIDDEN * d),
        HIDDEN <= nearest_quotient(n * pow2(j), d) <= 2 * HIDDEN,
        2 * (d * nearest_quotient(n * pow2(j), d)) <= 2 * (n * pow2(j)) + d,
        2 * (n * pow2(j)) <= 2 * (d * nearest_quotient(n * pow2(j), d)) + d,
        ratio_bits(n, d, 150) == (149 - j) * HIDDEN + nearest_quotient(n * pow2(j), d),
{
    let j = ratio_scale(n, d);
    ratio_significand(n, d, j);
    ratio_bits_closed(n, d, 150, j);
    lemma2_to64();
    lemma2_to64_rest();
    let p = pow2(j);
    assert(p >= 0x40_0000) by (nonlinear_arith)
        requires
            n * p >= 0x80_0000 * d,
            n <= d + 1,
            d >= 32767,
    ;
    assert(p <= n * p) by (nonlinear_arith)
        requires
            n >= 1,
    ;
    assert(p <= 0x100_0000 * 65535);
    if j > 40 {
        vstd::arithmetic::power2::lemma_pow2_strictly_increases(40, j);
    }
    if j < 22 {
        vstd::arithmetic::power2::lemma_pow2_strictly_increases(j, 22);
    }
    j
}

/// Turning a 16-bit sample into a number and back gives the sample again, or the next value
/// towards zero.
pub proof fn signed_round_trip(s: i16)
    ensures
        s >= 0 ==> s - 1 <= pcm_value(bits_of_signed(s) as u32) <= s,
        s <= 0 ==> s <= pcm_value(bits_of_signed(s) as u32) <= s + 1,
{
    if s == 0 {
        lemma2_to64();
        pcm_of_zero();
    } else {
        let n: nat = if s < 0 {
            (-s) as nat
        } else {
            s as nat
        };
        let d = FULL_SCALE as nat;
        let j = lemma_small_ratio(n, d);
        let m = nearest_quotient(n * pow2(j), d);
        let bits = ratio_bits(n, d, 150) as u32;
        lemma_parts(bits, m, j);
        assert(pcm_magnitude((SIGN + bits) as u32) == pcm_magnitude(bits));
        assert(n - 1 <= pcm_magnitude(bits) <= n) by {
            pcm_is_within_full_scale(bits);
            if exponent(bits) < 127 {
                let p = places(bits);
                lemma_pow2_unfold(j);
                assert(n * pow2(j) == 2 * (n * pow2((j - 1) as nat))) by (nonlinear_arith)
                    requires
                        pow2(j) == 2 * pow2((j - 1) as nat),
                ;
                let a = significand(bits) * d;
                let exact = n * pow2(p);
                assert(-16384 <= a - exact <= 16384);
                spacing_bounds(a);
                rounding_error(a);
                let r = nearest_magnitude(a);
                lemma_pow2_at_least(p);
                let w = pow2(p);
                assert(n - 1 <= r / w <= n) by (nonlinear_arith)
                    requires
                        n * w - 65536 <= r <= n * w + 65536,
                        w >= 0x100_0000,
                        n >= 1,
                ;
            } else {
                lemma2_to64();
                if j == 22 {
                    assert(n * pow2(j) == n * 0x40_0000);
                } else if j == 23 {
                    assert(n * pow2(j) == n * 0x80_0000);
                } else {
                    assert(n * pow2(j) == n * 0x100_0000);
                    assert(d * m == d * 0x100_0000);
                }
                assert(n >= 32767);
            }
        }
    }
}

/// The sample of a 16-bit signed value is the single-precision number nearest to its share of full
/// scale: after as many doublings as bring the share to 24 bits, the significand is off by at most
/// one half, and no other whole number is nearer.
pub proof fn signed_samples_are_shares(s: i16, t: nat) -> (j: nat)
    requires
        s != 0,
    ensures
        ({
            let n: nat = if s < 0 {
                (-s) as nat
            } else {
                s as nat
            };
            let sign: int = if s < 0 {
                0x8000_0000
            } else {
                0
            };
            let m = bits_of_signed(s) - sign - (149 - j) * 0x80_0000;
            &&& 0x80_0000 <= m <= 0x100_0000
            &&& 0x80_0000 * 32767 <= n * pow2(j) < 0x100_0000 * 32767
            &&& distance(n * pow2(j), (m * 32767) as nat) <= distance(n * pow2(j), t * 32767)
        }),
{
    let n: nat = if s < 0 {
        (-s) as nat
    } else {
        s as nat
    };
    let j = lemma_small_ratio(n, 32767);
    quotient_is_nearest(n * pow2(j), 32767, t);
    j
}

/// Silence is zero.
pub proof fn pcm_of_zero()
    ensures
        pcm_value(0) == 0,
        ratio_bits(0, FULL_SCALE as nat, 150) == 0,
{
    lemma_pow2_pos(149);
    spacing_bounds(0);
    assert(nearest_magnitude(0) == 0);
    vstd::arithmetic::div_mod::lemma_div_basics(pow2(149) as int);
}

/// Computes a power of two.
fn power(k: u32) -> (r: u64)
    requires
        k <= 40,
    ensures
        r == pow2(k as nat),
{
    let mut r: u64 = 1;
    let mut i: u32 = 0;
    proof {
        lemma2_to64();
    }
    while i < k
        invariant
            i <= k <= 40,
            r == pow2(i as nat),
        decreases k - i,
    {
        proof {
            lemma_pow2_unfold((i + 1) as nat);
            lemma2_to64();
            lemma2_to64_rest();
            if i + 1 < 40 {
                vstd::arithmetic::power2::lemma_pow2_strictly_increases((i + 1) as nat, 40);
            }
        }
        r = 2 * r;
        i = i + 1;
    }
    r
}

/// Twice the share of an unsigned sample, against one: how far apart the two are.
proof fn lemma_distance_from_half(s: u16)
    requires
        s > 0,
    ensures
        ({
            let share = ratio_bits(s as nat, 65535, 150) as u32;
            let twice = 2 * significand(share);
            let one = pow2(places(share));
            &&& ratio_bits(s as nat, 65535, 150) == share
            &&& 22 <= places(share) <= 39
            &&& exponent(share) == 150 - places(share)
            &&& one <= 0x80_0000_0000
            &&& twice < one ==> one <= 0x100_0000 * (one - twice) && one - twice <= 2 * one
            &&& twice >= one ==> 0 < twice - one && one <= 0x100_0000 * (twice - one) && twice - one
                <= 2 * one
        }),
{
    let n = s as nat;
    let d: nat = 65535;
    let j = lemma_small_ratio(n, d);
    let m = nearest_quotient(n * pow2(j), d);
    let share = ratio_bits(n, d, 150) as u32;
    lemma_parts(share, m, j);
    lemma2_to64();
    lemma2_to64_rest();
    let w = pow2(j);
    lemma_pow2_unfold(j);
    let k = places(share);
    let one = pow2(k);
    let twice = 2 * significand(share);
    if j < 39 {
        vstd::arithmetic::power2::lemma_pow2_strictly_increases(j, 39);
    }
    assert(n * w <= 65535 * w) by (nonlinear_arith)
        requires
            n <= 65535,
    ;
    if j == 22 {
        assert(n * w >= 0x80_0000 * 65535);
    } else {
        vstd::arithmetic::power2::lemma_pow2_strictly_increases(22, j);
    }
    if n >= 32768 {
        assert(n * w >= 32768 * w) by (nonlinear_arith)
            requires
                n >= 32768,
        ;
    } else {
        assert(n * w <= 32767 * w) by (nonlinear_arith)
            requires
                n <= 32767,
        ;
    }
}

/// Converts a 16-bit unsigned sample.
pub fn sample_from_u16(s: u16) -> (r: u32)
    ensures
        r == bits_of_unsigned(s),
{
    if s == 0 {
        proof {
            lemma_lowest_unsigned();
        }
        return 0xBF80_0000;
    }
    proof {
        lemma_distance_from_half(s);
    }
    let share: u32 = ratio(s as u64, 65535);
    let exponent: u32 = (share / HIDDEN) % 256;
    let twice: u64 = 2 * (share % HIDDEN + HIDDEN) as u64;
    let one: u64 = power(150 - exponent);
    if twice < one {
        SIGN + ratio(one - twice, one)
    } else {
        ratio(twice - one, one)
    }
}

/// The lowest unsigned sample is minus one.
proof fn lemma_lowest_unsigned()
    ensures
        bits_of_unsigned(0) == 0xBF80_0000,
{
    let one = pow2(149);
    lemma_pow2_pos(149);
    lemma2_to64();
    assert(one * pow2(23) == HIDDEN * one) by (nonlinear_arith)
        requires
            pow2(23) == HIDDEN,
    ;
    ratio_bits_closed(one, one, 150, 23);
    ratio_significand(one, one, 23);
    let q = nearest_quotient(one * pow2(23), one);
    assert((0x80_0000 * one) / one == 0x80_0000 && (0x80_0000 * one) % one == 0) by {
        vstd::arithmetic::div_mod::lemma_fundamental_div_mod_converse(
            (0x80_0000 * one) as int,
            one as int,
            0x80_0000,
            0,
        );
    }
}

/// The PCM values of a run of samples.
pub open spec fn pcm_values(bits: Seq<u32>) -> Seq<i16> {
    Seq::new(bits.len(), |i: int| pcm_value(bits[i]) as i16)
}

/// Every sample of a run has its own PCM value, whatever comes before or after it.
pub proof fn samples_have_their_own_values(bits: Seq<u32>, i: int)
    ensures
        pcm_values(bits).len() == bits.len(),
        0 <= i < bits.len() ==> pcm_values(bits)[i] == pcm_value(bits[i]),
{
    if 0 <= i < bits.len() {
        pcm_is_within_full_scale(bits[i]);
    }
}

/// Runs that follow one another have the PCM values of each, one after the other.
pub proof fn runs_join(first: Seq<u32>, second: Seq<u32>)
    ensures
        pcm_values(first + second) == pcm_values(first) + pcm_values(second),
        pcm_bytes(pcm_values(first + second)) == pcm_bytes(pcm_values(first)) + pcm_bytes(
            pcm_values(second),
        ),
{
    let a = pcm_values(first);
    let b = pcm_values(second);
    assert(pcm_values(first + second) =~= a + b);
    assert(pcm_bytes(a + b) =~= pcm_bytes(a) + pcm_bytes(b));
}

/// Computes the PCM values of a run of samples.
pub fn quantize_all(bits: &[u32]) -> (r: Vec<i16>)
    ensures
        r@ == pcm_values(bits@),
        r@.len() == bits@.len(),
        forall|i: int| 0 <= i < bits@.len() ==> #[trigger] r@[i] == pcm_value(bits@[i]),
{
    let mut r: Vec<i16> = Vec::with_capacity(bits.len());
    let mut i: usize = 0;
    while i < bits.len()
        invariant
            i <= bits@.len(),
            r@ == pcm_values(bits@).take(i as int),
        decreases bits@.len() - i,
    {
        r.push(quantize(bits[i]));
        i = i + 1;
        assert(r@ =~= pcm_values(bits@).take(i as int));
    }
    assert(r@ =~= pcm_values(bits@));
    proof {
        assert forall|i: int| 0 <= i < bits@.len() implies #[trigger] r@[i] == pcm_value(bits@[i]) by {
            samples_have_their_own_values(bits@, i);
        }
    }
    r
}

/// A number as two bytes, the low one first; a negative one in two's complement.
pub open spec fn le16(x: int) -> Seq<u8> {
    seq![(x % 256) as u8, ((x / 256) % 256) as u8]
}

/// PCM values as bytes.
pub open spec fn pcm_bytes(values: Seq<i16>) -> Seq<u8> {
    Seq::new(values.len() * 2, |i: int| le16(values[i / 2] as int)[i % 2])
}

/// The number that two bytes stand for.
pub open spec fn from_le16(low: u8, high: u8) -> int {
    let n = low + 256 * high;
    if n >= 32768 {
        n - 65536
    } else {
        n
    }
}

/// Every PCM value can be read back from its bytes.
pub proof fn pcm_bytes_round_trip(values: Seq<i16>, i: int)
    requires
        0 <= i < values.len(),
    ensures
        from_le16(pcm_bytes(values)[2 * i], pcm_bytes(values)[2 * i + 1]) == values[i],
{
    assert((2 * i) / 2 == i && (2 * i + 1) / 2 == i && (2 * i) % 2 == 0 && (2 * i + 1) % 2 == 1);
}

/// Each PCM value takes two bytes: what is left of it modulo 256, and then how many times 256 goes
/// into the rest, where a negative value counts up from 65536.
pub proof fn bytes_hold_the_values(values: Seq<i16>, i: int)
    requires
        0 <= i < values.len(),
    ensures
        pcm_bytes(values).len() == 2 * values.len(),
        pcm_bytes(values)[2 * i] + 256 * pcm_bytes(values)[2 * i + 1] == if values[i] < 0 {
            values[i] + 65536
        } else {
            values[i] as int
        },
{
    assert((2 * i) / 2 == i && (2 * i + 1) / 2 == i && (2 * i) % 2 == 0 && (2 * i + 1) % 2 == 1);
}

/// Lays out PCM values as bytes.
pub fn to_bytes(values: &[i16]) -> (r: Vec<u8>)
    ensures
        r@ == pcm_bytes(values@),
{
    let mut r: Vec<u8> = Vec::new();
    let mut i: usize = 0;
    while i < values.len()
        invariant
            i <= values@.len(),
            r@.len() == 2 * i,
            r@ == pcm_bytes(values@).take(2 * i),
        decreases values@.len() - i,
    {
        let value: i32 = values[i] as i32;
        let n: i32 = if value < 0 {
            value + 65536
        } else {
            value
        };
        r.push((n % 256) as u8);
        r.push((n / 256) as u8);
        proof {
            let k = i as int;
            assert((2 * k) / 2 == k && (2 * k + 1) / 2 == k);
            assert((2 * k) % 2 == 0 && (2 * k + 1) % 2 == 1);
            assert(r@ =~= pcm_bytes(values@).take(2 * (k + 1)));
        }
        i = i + 1;
    }
    assert(r@ =~= pcm_bytes(values@));
    r
}

} // verus!
