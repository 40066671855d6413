//! Single-precision (IEEE 754 binary32) rounding carried out on integers.
//!
//! A real number is written as an integer number of units of some fixed power of two.  A
//! single-precision significand has 24 bits, so among the integers of a given magnitude only the
//! multiples of a certain power of two, the *spacing*, are single-precision numbers.  Each
//! arithmetic operation yields the representable number nearest to the exact result, and the one
//! with the even significand when two are equally near.

use vstd::arithmetic::power2::{
    lemma2_to64, lemma2_to64_rest, lemma_pow2_pos, lemma_pow2_unfold, pow2,
};
use vstd::prelude::*;

verus! {

/// Significands are smaller than this.
pub const SIGNIFICAND_LIMIT: u64 = 0x100_0000;

/// Distance between neighbouring representable numbers of magnitude `a`: the least power of two
/// of which fewer than `SIGNIFICAND_LIMIT` whole multiples fit into `a`.
pub open spec fn spacing(a: nat) -> nat
    decreases a,
{
    if a < SIGNIFICAND_LIMIT {
        1
    } else {
        2 * spacing(a / 2)
    }
}

/// The multiple of `unit` nearest to `a`; halfway between two, the even multiple.
pub open spec fn nearest_multiple(a: nat, unit: nat) -> nat {
    let below = a / unit;
    let rest = a % unit;
    if 2 * rest < unit || (2 * rest == unit && below % 2 == 0) {
        below * unit
    } else {
        (below + 1) * unit
    }
}

/// The single-precision number nearest to the magnitude `a`.
pub open spec fn nearest_magnitude(a: nat) -> nat {
    nearest_multiple(a, spacing(a))
}

/// The single-precision number nearest to `x`.
pub open spec fn nearest(x: int) -> int {
    if x < 0 {
        -(nearest_magnitude((-x) as nat) as int)
    } else {
        nearest_magnitude(x as nat) as int
    }
}

/// A magnitude is less than `SIGNIFICAND_LIMIT` spacings and, unless the spacing is one, at least
/// half as many.
pub proof fn spacing_bounds(a: nat)
    ensures
        spacing(a) > 0,
        a < SIGNIFICAND_LIMIT * spacing(a),
        a >= SIGNIFICAND_LIMIT ==> SIGNIFICAND_LIMIT * spacing(a) <= 2 * a,
        spacing(a) <= a + 1,
        a < SIGNIFICAND_LIMIT ==> spacing(a) == 1,
        a >= SIGNIFICAND_LIMIT ==> spacing(a) % 2 == 0,
    decreases a,
{
    if a >= SIGNIFICAND_LIMIT {
        spacing_bounds(a / 2);
    }
}

proof fn lemma_spacing_monotone(a: nat, b: nat)
    requires
        a <= b,
    ensures
        spacing(a) == spacing(b) || 2 * spacing(a) <= spacing(b),
    decreases b,
{
    if b >= SIGNIFICAND_LIMIT {
        spacing_bounds(b / 2);
        if a >= SIGNIFICAND_LIMIT {
            lemma_spacing_monotone(a / 2, b / 2);
        }
    }
}

proof fn lemma_nearest_multiple_between(a: nat, unit: nat)
    requires
        unit > 0,
    ensures
        nearest_multiple(a, unit) <= a + unit,
        a <= nearest_multiple(a, unit) + unit,
        2 * nearest_multiple(a, unit) <= 2 * a + unit,
        2 * a <= 2 * nearest_multiple(a, unit) + unit,
        nearest_multiple(a, unit) == (a / unit) * unit || nearest_multiple(a, unit) == (a / unit + 1)
            * unit,
        a % unit == 0 ==> nearest_multiple(a, unit) == a,
{
    let q = a / unit;
    let r = a % unit;
    vstd::arithmetic::div_mod::lemma_fundamental_div_mod(a as int, unit as int);
    assert(q * unit == unit * q) by (nonlinear_arith);
    assert((q + 1) * unit == unit * q + unit) by (nonlinear_arith);
}

/// Rounding moves a magnitude by at most half of the spacing there.
pub proof fn rounding_error(a: nat)
    ensures
        2 * nearest_magnitude(a) <= 2 * a + spacing(a),
        2 * a <= 2 * nearest_magnitude(a) + spacing(a),
{
    spacing_bounds(a);
    lemma_nearest_multiple_between(a, spacing(a));
}

/// Rounding no more than doubles a number, up to one unit.
pub proof fn rounding_is_bounded(x: int)
    ensures
        x >= 0 ==> 0 <= nearest(x) <= 2 * x + 1,
        x <= 0 ==> 2 * x - 1 <= nearest(x) <= 0,
{
    let a = if x < 0 {
        (-x) as nat
    } else {
        x as nat
    };
    rounding_error(a);
    spacing_bounds(a);
    lemma_nearest_multiple_between(a, spacing(a));
}

/// A magnitude with no more significant bits than a significand holds is its own rounding.
pub proof fn representable_is_fixed(a: nat)
    requires
        a % spacing(a) == 0,
    ensures
        nearest_magnitude(a) == a,
{
    spacing_bounds(a);
    lemma_nearest_multiple_between(a, spacing(a));
}

/// Rounding keeps order.
pub proof fn rounding_is_monotone(a: nat, b: nat)
    requires
        a <= b,
    ensures
        nearest_magnitude(a) <= nearest_magnitude(b),
{
    let s = spacing(a);
    let t = spacing(b);
    spacing_bounds(a);
    spacing_bounds(b);
    lemma_spacing_monotone(a, b);
    lemma_nearest_multiple_between(a, s);
    lemma_nearest_multiple_between(b, t);
    vstd::arithmetic::div_mod::lemma_fundamental_div_mod(a as int, s as int);
    vstd::arithmetic::div_mod::lemma_fundamental_div_mod(b as int, t as int);
    let p = a / s;
    let q = b / t;
    if s == t {
        vstd::arithmetic::div_mod::lemma_div_is_ordered(a as int, b as int, s as int);
        if p < q {
            assert((p + 1) * s <= q * s) by (nonlinear_arith)
                requires
                    p + 1 <= q,
            ;
            assert(p * s <= (p + 1) * s <= q * s <= (q + 1) * s) by (nonlinear_arith)
                requires
                    (p + 1) * s <= q * s,
            ;
        } else {
            assert(p * s <= (p + 1) * s) by (nonlinear_arith);
        }
    } else {
        // Below the next power of two the rounding of `a` stays at most that power; above it the
        // rounding of `b` stays at least that power.
        let top = (SIGNIFICAND_LIMIT as nat) * s;
        assert(p + 1 <= SIGNIFICAND_LIMIT) by (nonlinear_arith)
            requires
                a == s * p + a % s,
                a % s >= 0,
                a < SIGNIFICAND_LIMIT * s,
                s > 0,
        ;
        assert(p * s <= (p + 1) * s <= top) by (nonlinear_arith)
            requires
                p + 1 <= SIGNIFICAND_LIMIT,
                top == SIGNIFICAND_LIMIT * s,
        ;
        let half: nat = 0x80_0000;
        assert(half * t <= b);
        assert(q >= half) by (nonlinear_arith)
            requires
                b == t * q + b % t,
                b % t < t,
                half * t <= b,
                t > 0,
        ;
        assert(half * t <= q * t <= (q + 1) * t) by (nonlinear_arith)
            requires
                half <= q,
        ;
        assert(top <= half * t);
    }
}

proof fn lemma_doubling(m: nat, k: nat)
    requires
        m < SIGNIFICAND_LIMIT,
    ensures
        (m * pow2(k)) % spacing(m * pow2(k)) == 0,
    decreases k,
{
    let a = m * pow2(k);
    spacing_bounds(a);
    if k == 0 {
        lemma2_to64();
        assert(a == m);
    } else {
        let b = m * pow2((k - 1) as nat);
        lemma_doubling(m, (k - 1) as nat);
        lemma_pow2_unfold(k);
        assert(a == 2 * b) by (nonlinear_arith)
            requires
                a == m * pow2(k),
                b == m * pow2((k - 1) as nat),
                pow2(k) == 2 * pow2((k - 1) as nat),
        ;
        if a >= SIGNIFICAND_LIMIT {
            let s = spacing(b);
            spacing_bounds(b);
            assert(a / 2 == b);
            assert((2 * b) % (2 * s) == 2 * (b % s)) by {
                vstd::arithmetic::div_mod::lemma_truncate_middle(b as int, 2, s as int);
            }
        }
    }
}

/// A significand scaled by a power of two is its own rounding.
pub proof fn scaled_significand_is_fixed(m: nat, k: nat)
    requires
        m < SIGNIFICAND_LIMIT,
    ensures
        nearest_magnitude(m * pow2(k)) == m * pow2(k),
{
    lemma_doubling(m, k);
    representable_is_fixed(m * pow2(k));
}

proof fn lemma_rounding_doubles(a: nat)
    ensures
        nearest_magnitude(2 * a) == 2 * nearest_magnitude(a),
{
    spacing_bounds(a);
    spacing_bounds(2 * a);
    let u = spacing(a);
    if 2 * a >= SIGNIFICAND_LIMIT {
        assert((2 * a) / 2 == a);
        vstd::arithmetic::div_mod::lemma_truncate_middle(a as int, 2, u as int);
        vstd::arithmetic::div_mod::lemma_div_denominator(2 * a as int, 2, u as int);
        let q = a / u;
        assert(q * (2 * u) == 2 * (q * u)) by (nonlinear_arith);
        assert((q + 1) * (2 * u) == 2 * ((q + 1) * u)) by (nonlinear_arith);
    } else {
        lemma_nearest_multiple_between(a, 1);
        lemma_nearest_multiple_between(2 * a, 1);
    }
}

/// Scaling by a power of two commutes with rounding.
pub proof fn rounding_scales(a: nat, k: nat)
    ensures
        nearest_magnitude(a * pow2(k)) == nearest_magnitude(a) * pow2(k),
    decreases k,
{
    lemma2_to64();
    if k == 0 {
        assert(a * pow2(0) == a);
        assert(nearest_magnitude(a) * pow2(0) == nearest_magnitude(a));
    } else {
        let p = pow2((k - 1) as nat);
        lemma_pow2_unfold(k);
        rounding_scales(a, (k - 1) as nat);
        lemma_rounding_doubles(a * p);
        assert(a * pow2(k) == 2 * (a * p)) by (nonlinear_arith)
            requires
                pow2(k) == 2 * p,
        ;
        assert(nearest_magnitude(a) * pow2(k) == 2 * (nearest_magnitude(a) * p)) by (nonlinear_arith)
            requires
                pow2(k) == 2 * p,
        ;
    }
}

/// A significand times a power of two.
pub open spec fn scaled(m: nat, k: nat) -> nat {
    m * pow2(k)
}

/// How far apart two magnitudes are.
pub open spec fn distance(a: nat, b: nat) -> nat {
    if a < b {
        (b - a) as nat
    } else {
        (a - b) as nat
    }
}

/// `r` is a significand of at most 24 bits times a power of two, no such number is nearer to `a`,
/// and where another one is equally near, `r` is the one with the even significand: their distance
/// from each other is twice that to `a`, and `r` is an even multiple of it.
pub open spec fn is_nearest_single(a: nat, r: nat) -> bool {
    &&& exists|m: nat, k: nat| m <= 0x100_0000 && r == #[trigger] scaled(m, k)
    &&& forall|m: nat, k: nat|
        m <= 0x100_0000 ==> distance(a, r) <= distance(a, #[trigger] scaled(m, k))
    &&& forall|m: nat, k: nat|
        m <= 0x100_0000 && #[trigger] scaled(m, k) != r && distance(a, r) == distance(
            a,
            scaled(m, k),
        ) ==> r % (4 * distance(a, r)) == 0
}

/// The same for a number with a sign: the sign is kept.
pub open spec fn is_nearest_single_to(x: int, r: int) -> bool {
    if x < 0 {
        r <= 0 && is_nearest_single((-x) as nat, (-r) as nat)
    } else {
        r >= 0 && is_nearest_single(x as nat, r as nat)
    }
}

/// The spacing is a power of two.
proof fn lemma_spacing_is_a_power(a: nat) -> (s: nat)
    ensures
        spacing(a) == pow2(s),
    decreases a,
{
    lemma2_to64();
    if a < SIGNIFICAND_LIMIT {
        0
    } else {
        let s = lemma_spacing_is_a_power(a / 2);
        lemma_pow2_unfold(s + 1);
        s + 1
    }
}

/// No multiple of the unit is nearer than the nearest one, and one that is equally near leaves it
/// even.
proof fn lemma_best_multiple(a: nat, unit: nat, t: nat)
    requires
        unit > 0,
    ensures
        distance(a, nearest_multiple(a, unit)) <= distance(a, t * unit),
        t * unit != nearest_multiple(a, unit) && distance(a, nearest_multiple(a, unit)) == distance(
            a,
            t * unit,
        ) ==> nearest_multiple(a, unit) % (4 * distance(a, nearest_multiple(a, unit))) == 0,
{
    let q = a / unit;
    let rest = a % unit;
    let best = nearest_multiple(a, unit);
    vstd::arithmetic::div_mod::lemma_fundamental_div_mod(a as int, unit as int);
    assert(q * unit == unit * q) by (nonlinear_arith);
    assert((q + 1) * unit == unit * q + unit) by (nonlinear_arith);
    if t < q {
        assert(t * unit + unit <= q * unit) by (nonlinear_arith)
            requires
                t + 1 <= q,
        ;
    } else if t > q + 1 {
        assert(t * unit >= (q + 1) * unit + unit) by (nonlinear_arith)
            requires
                t >= q + 2,
        ;
    }
    if t * unit != best && distance(a, best) == distance(a, t * unit) {
        assert(2 * rest == unit);
        assert(4 * distance(a, best) == 2 * unit);
        let even = if q % 2 == 0 {
            q
        } else {
            q + 1
        };
        assert(best == even * unit);
        let half = even / 2;
        assert(best == half * (2 * unit)) by (nonlinear_arith)
            requires
                best == even * unit,
                even == 2 * half,
        ;
        vstd::arithmetic::div_mod::lemma_mod_multiples_basic(half as int, (2 * unit) as int);
    }
}

/// The rounding of a magnitude is a significand of at most 24 bits times a power of two.
pub proof fn rounding_gives_a_single(a: nat) -> (r: (nat, nat))
    ensures
        r.0 <= 0x100_0000,
        nearest_magnitude(a) == scaled(r.0, r.1),
{
    let unit = spacing(a);
    spacing_bounds(a);
    let s = lemma_spacing_is_a_power(a);
    vstd::arithmetic::div_mod::lemma_fundamental_div_mod(a as int, unit as int);
    let q = a / unit;
    assert(q < 0x100_0000) by (nonlinear_arith)
        requires
            a == unit * q + a % unit,
            a % unit >= 0,
            a < 0x100_0000 * unit,
    ;
    if nearest_magnitude(a) == q * unit {
        (q, s)
    } else {
        (q + 1, s)
    }
}

/// No single-precision number is nearer to a magnitude than its rounding, and of two that are
/// equally near the rounding is the even one.
pub proof fn nothing_is_nearer(a: nat, m: nat, k: nat)
    requires
        m <= 0x100_0000,
    ensures
        distance(a, nearest_magnitude(a)) <= distance(a, scaled(m, k)),
        scaled(m, k) != nearest_magnitude(a) && distance(a, nearest_magnitude(a)) == distance(
            a,
            scaled(m, k),
        ) ==> nearest_magnitude(a) % (4 * distance(a, nearest_magnitude(a))) == 0,
{
    let unit = spacing(a);
    spacing_bounds(a);
    let s = lemma_spacing_is_a_power(a);
    if k >= s {
        let rest = (k - s) as nat;
        vstd::arithmetic::power2::lemma_pow2_adds(rest, s);
        let t = m * pow2(rest);
        assert(scaled(m, k) == t * unit) by (nonlinear_arith)
            requires
                scaled(m, k) == m * pow2(k),
                pow2(k) == pow2(rest) * unit,
                t == m * pow2(rest),
        ;
        lemma_best_multiple(a, unit, t);
    } else {
        // A smaller power of two only makes numbers up to the least one with this spacing.
        lemma2_to64();
        if k + 1 < s {
            vstd::arithmetic::power2::lemma_pow2_strictly_increases(k + 1, s);
        }
        lemma_pow2_unfold(k + 1);
        lemma_pow2_pos(k);
        assert(2 * pow2(k) <= unit);
        let least: nat = 0x80_0000;
        assert(scaled(m, k) <= least * unit) by (nonlinear_arith)
            requires
                scaled(m, k) == m * pow2(k),
                m <= 2 * least,
                2 * pow2(k) <= unit,
        ;
        assert(unit > 1);
        assert(least * unit <= a);
        lemma_best_multiple(a, unit, least);
    }
}

/// Rounding is to the nearest single-precision number, ties to even, and nothing else is.
pub proof fn rounding_is_to_nearest(a: nat, r: nat)
    ensures
        is_nearest_single(a, r) <==> r == nearest_magnitude(a),
{
    let own = nearest_magnitude(a);
    let (m, k) = rounding_gives_a_single(a);
    assert(own == scaled(m, k));
    assert forall|m: nat, k: nat| m <= 0x100_0000 implies distance(a, own) <= distance(
        a,
        #[trigger] scaled(m, k),
    ) by {
        nothing_is_nearer(a, m, k);
    }
    assert forall|m: nat, k: nat|
        m <= 0x100_0000 && #[trigger] scaled(m, k) != own && distance(a, own) == distance(
            a,
            scaled(m, k),
        ) implies own % (4 * distance(a, own)) == 0 by {
        nothing_is_nearer(a, m, k);
    }
    assert(is_nearest_single(a, own));
    if is_nearest_single(a, r) && r != own {
        let (n, j) = choose|n: nat, j: nat| n <= 0x100_0000 && r == #[trigger] scaled(n, j);
        assert(distance(a, r) == distance(a, own));
        assert(scaled(n, j) != own);
        assert(scaled(m, k) != r);
        let e = distance(a, own);
        assert(own % (4 * e) == 0 && r % (4 * e) == 0);
        assert(e > 0);
        let low = if own < r {
            own
        } else {
            r
        };
        let high = if own < r {
            r
        } else {
            own
        };
        assert(high == low + 2 * e);
        vstd::arithmetic::div_mod::lemma_add_mod_noop(low as int, 2 * e as int, 4 * e as int);
        vstd::arithmetic::div_mod::lemma_small_mod(2 * e, 4 * e);
        assert(false);
    }
}

/// Rounding keeps the sign and treats both signs alike.
pub proof fn rounding_is_symmetric(x: int, r: int)
    ensures
        nearest(-x) == -nearest(x),
        is_nearest_single_to(x, r) <==> r == nearest(x),
{
    let a = if x < 0 {
        (-x) as nat
    } else {
        x as nat
    };
    rounding_is_bounded(x);
    rounding_is_bounded(-x);
    rounding_is_bounded(0);
    if r < 0 {
        rounding_is_to_nearest(a, (-r) as nat);
    } else {
        rounding_is_to_nearest(a, r as nat);
        rounding_is_to_nearest(a, 0);
    }
    if x < 0 {
        if r <= 0 {
            rounding_is_to_nearest(a, (-r) as nat);
        }
    }
}

/// Weight of the lowest exponent bit of a bit pattern, and of the implicit significand bit.
pub const HIDDEN: u32 = 0x80_0000;

/// The whole number nearest to `n / d`; halfway between two, the even one.
pub open spec fn nearest_quotient(n: nat, d: nat) -> nat {
    let below = n / d;
    let rest = n % d;
    if 2 * rest < d || (2 * rest == d && below % 2 == 0) {
        below
    } else {
        below + 1
    }
}

/// Bit pattern of the single-precision number nearest to `n / d * 2^(e - 150)`, a number below
/// `2^(e - 126)`.
///
/// The ratio is brought to the range of significands by doubling.  There its rounding, added to
/// the exponent bits, carries into them when it reaches the next power of two.
pub open spec fn ratio_bits(n: nat, d: nat, e: int) -> int
    decreases
            (if HIDDEN * d > n {
                HIDDEN * d - n
            } else {
                0
            }),
{
    if n == 0 {
        0
    } else if n >= HIDDEN * d {
        (e - 1) * HIDDEN + nearest_quotient(n, d)
    } else {
        ratio_bits(2 * n, d, e - 1)
    }
}

proof fn lemma_nearest_quotient(n: nat, d: nat)
    requires
        d > 0,
    ensures
        2 * (d * nearest_quotient(n, d)) <= 2 * n + d,
        2 * n <= 2 * (d * nearest_quotient(n, d)) + d,
        n / d <= nearest_quotient(n, d) <= n / d + 1,
{
    vstd::arithmetic::div_mod::lemma_fundamental_div_mod(n as int, d as int);
    let q = n / d;
    assert(d * (q + 1) == d * q + d) by (nonlinear_arith);
}

/// The whole number that a quotient is rounded to is as near as any, and even where another one is
/// equally near.
pub proof fn quotient_is_nearest(n: nat, d: nat, t: nat)
    requires
        d > 0,
    ensures
        distance(n, nearest_quotient(n, d) * d) <= distance(n, t * d),
        t != nearest_quotient(n, d) && distance(n, nearest_quotient(n, d) * d) == distance(n, t * d)
            ==> nearest_quotient(n, d) % 2 == 0,
{
    let q = n / d;
    vstd::arithmetic::div_mod::lemma_fundamental_div_mod(n as int, d as int);
    assert(q * d == d * q) by (nonlinear_arith);
    assert((q + 1) * d == d * q + d) by (nonlinear_arith);
    if t < q {
        assert(t * d + d <= q * d) by (nonlinear_arith)
            requires
                t + 1 <= q,
        ;
    } else if t > q + 1 {
        assert(t * d >= (q + 1) * d + d) by (nonlinear_arith)
            requires
                t >= q + 2,
        ;
    }
}

/// What doubling ends with: the ratio lies in the range of significands after `j` doublings.
pub proof fn ratio_bits_closed(n: nat, d: nat, e: int, j: nat)
    requires
        n > 0,
        HIDDEN * d <= n * pow2(j) < 2 * (HIDDEN * d),
    ensures
        ratio_bits(n, d, e) == (e - j - 1) * HIDDEN + nearest_quotient(n * pow2(j), d),
    decreases j,
{
    lemma2_to64();
    if j == 0 {
        assert(n * pow2(0) == n);
    } else {
        lemma_pow2_unfold(j);
        lemma_pow2_pos((j - 1) as nat);
        let p = pow2((j - 1) as nat);
        assert(n * pow2(j) == (2 * n) * p) by (nonlinear_arith)
            requires
                pow2(j) == 2 * p,
        ;
        assert(2 * n <= (2 * n) * p) by (nonlinear_arith)
            requires
                p >= 1,
        ;
        ratio_bits_closed(2 * n, d, e - 1, (j - 1) as nat);
    }
}

/// Some number of doublings brings a ratio to the range of significands.
pub proof fn ratio_scale(n: nat, d: nat) -> (j: nat)
    requires
        0 < n < 2 * (HIDDEN * d),
    ensures
        HIDDEN * d <= n * pow2(j) < 2 * (HIDDEN * d),
    decreases
            (if HIDDEN * d > n {
                HIDDEN * d - n
            } else {
                0
            }),
{
    lemma2_to64();
    if n >= HIDDEN * d {
        assert(n * pow2(0) == n);
        0
    } else {
        let i = ratio_scale(2 * n, d);
        lemma_pow2_unfold(i + 1);
        assert(n * pow2(i + 1) == (2 * n) * pow2(i)) by (nonlinear_arith)
            requires
                pow2(i + 1) == 2 * pow2(i),
        ;
        i + 1
    }
}

/// The significand that a ratio is rounded to, after `j` doublings: it is off by at most one half.
pub proof fn ratio_significand(n: nat, d: nat, j: nat)
    requires
        HIDDEN * d <= n * pow2(j) < 2 * (HIDDEN * d),
    ensures
        HIDDEN <= nearest_quotient(n * pow2(j), d) <= 2 * HIDDEN,
        2 * (d * nearest_quotient(n * pow2(j), d)) <= 2 * (n * pow2(j)) + d,
        2 * (n * pow2(j)) <= 2 * (d * nearest_quotient(n * pow2(j), d)) + d,
{
    let a = n * pow2(j);
    let h = HIDDEN as nat;
    assert(d > 0);
    lemma_nearest_quotient(a, d);
    vstd::arithmetic::div_mod::lemma_fundamental_div_mod(a as int, d as int);
    let q = a / d;
    assert(h <= q < 2 * h) by (nonlinear_arith)
        requires
            a == d * q + a % d,
            0 <= a % d < d,
            h * d <= a < 2 * (h * d),
    ;
}

/// Computes the bit pattern of the single-precision number nearest to `n / d`.
pub fn ratio(n: u64, d: u64) -> (r: u32)
    requires
        0 < d <= 0x80_0000_0000,
        0 < n <= 2 * d,
        d <= 0x100_0000 * n,
    ensures
        r == ratio_bits(n as nat, d as nat, 150),
        r < 0x8000_0000,
{
    let mut top: u64 = n;
    let mut e: u32 = 150;
    let limit: u64 = HIDDEN as u64 * d;
    proof {
        lemma2_to64();
        assert(n * pow2(0) == n);
    }
    while top < limit
        invariant
            limit == 0x80_0000 * d,
            0 < d <= 0x80_0000_0000,
            0 < n,
            d <= 0x100_0000 * n,
            0 < top < 2 * limit,
            100 <= e <= 150,
            top == n * pow2((150 - e) as nat),
            ratio_bits(n as nat, d as nat, 150) == ratio_bits(top as nat, d as nat, e as int),
        decreases e,
    {
        proof {
            let j = (150 - e) as nat;
            let p = pow2(j);
            lemma_pow2_unfold(j + 1);
            assert(2 * (n * p) == n * (2 * p)) by (nonlinear_arith);
            lemma2_to64_rest();
            if j >= 48 {
                if j > 48 {
                    vstd::arithmetic::power2::lemma_pow2_strictly_increases(48, j);
                }
                assert(n * p >= n * 0x1_0000_0000_0000) by (nonlinear_arith)
                    requires
                        p >= 0x1_0000_0000_0000,
                ;
            }
        }
        top = 2 * top;
        e = e - 1;
    }
    let below: u64 = top / d;
    let rest: u64 = top % d;
    proof {
        vstd::arithmetic::div_mod::lemma_fundamental_div_mod(top as int, d as int);
        assert(below < 0x100_0000) by (nonlinear_arith)
            requires
                top == d * below + rest,
                rest >= 0,
                top < 0x100_0000 * d,
                d > 0,
        ;
    }
    let significand: u64 = if 2 * rest < d || (2 * rest == d && below % 2 == 0) {
        below
    } else {
        below + 1
    };
    (e - 1) * HIDDEN + significand as u32
}

/// Rounds a magnitude to single precision.
pub fn round_magnitude(a: u64) -> (r: u64)
    requires
        a < 0x4000_0000_0000_0000,
    ensures
        r == nearest_magnitude(a as nat),
{
    let mut unit: u64 = 1;
    let mut rest: u64 = a;
    proof {
        spacing_bounds(a as nat);
    }
    while rest >= SIGNIFICAND_LIMIT
        invariant
            unit * spacing(rest as nat) == spacing(a as nat),
            spacing(a as nat) <= a + 1,
            a < 0x4000_0000_0000_0000,
            unit > 0,
        decreases rest,
    {
        proof {
            spacing_bounds((rest / 2) as nat);
            let s = spacing((rest / 2) as nat);
            assert(unit * (2 * s) == (unit * 2) * s) by (nonlinear_arith);
            assert(unit * 2 <= (unit * 2) * s) by (nonlinear_arith)
                requires
                    s > 0,
            ;
        }
        rest = rest / 2;
        unit = unit * 2;
    }
    let below: u64 = a / unit;
    let left: u64 = a % unit;
    proof {
        assert(spacing(rest as nat) == 1);
        assert(unit * spacing(rest as nat) == unit) by (nonlinear_arith)
            requires
                spacing(rest as nat) == 1,
        ;
        lemma_nearest_multiple_between(a as nat, unit as nat);
        vstd::arithmetic::div_mod::lemma_fundamental_div_mod(a as int, unit as int);
        assert(below * unit == unit * below) by (nonlinear_arith);
        assert((below + 1) * unit == unit * below + unit) by (nonlinear_arith);
    }
    if 2 * left < unit || (2 * left == unit && below % 2 == 0) {
        below * unit
    } else {
        (below + 1) * unit
    }
}

/// Rounds a signed number to single precision.
pub fn round(x: i64) -> (r: i64)
    requires
        -0x4000_0000_0000_0000 < x < 0x4000_0000_0000_0000,
    ensures
        r == nearest(x as int),
{
    let magnitude: u64 = if x < 0 {
        (-x) as u64
    } else {
        x as u64
    };
    proof {
        rounding_error(magnitude as nat);
        spacing_bounds(magnitude as nat);
    }
    let rounded: u64 = round_magnitude(magnitude);
    if x < 0 {
        -(rounded as i64)
    } else {
        rounded as i64
    }
}

} // verus!
