//! IEEE-754 binary64 numbers as 64-bit patterns.

use vstd::prelude::*;
use vstd::arithmetic::power2::{pow2, lemma_pow2_unfold, lemma_pow2_pos, lemma_pow2_adds, lemma_pow2_strictly_increases, lemma2_to64};
use vstd::arithmetic::div_mod::{lemma_fundamental_div_mod_converse, lemma_fundamental_div_mod, lemma_div_is_ordered, lemma_div_multiples_vanish, lemma_mod_bound, lemma_small_mod, lemma_basic_div};
use vstd::arithmetic::mul::{lemma_mul_inequality, lemma_mul_strict_inequality, lemma_mul_is_commutative};

verus! {

/// Two to the 63rd: the weight of the sign bit.
pub const SIGN_BIT: u64 = 0x8000_0000_0000_0000;

/// Two to the 52nd: the weight of the lowest exponent bit, and the implicit
/// leading bit of a normal significand.
pub const HIDDEN_BIT: u64 = 0x0010_0000_0000_0000;

/// The pattern of positive infinity; every larger magnitude is a NaN.
pub const INFINITY: u64 = 0x7FF0_0000_0000_0000;

/// The NaN that arithmetic produces.
pub const QUIET_NAN: u64 = 0x7FF8_0000_0000_0000;

/// The pattern without its sign bit.
pub open spec fn magnitude(bits: u64) -> u64 {
    (bits % SIGN_BIT) as u64
}

/// Whether the sign bit is set.
pub open spec fn is_negative(bits: u64) -> bool {
    bits >= SIGN_BIT
}

/// Whether the pattern is a NaN.
pub open spec fn is_nan(bits: u64) -> bool {
    magnitude(bits) > INFINITY
}

/// Whether the pattern is positive or negative zero.
pub open spec fn is_zero(bits: u64) -> bool {
    magnitude(bits) == 0
}

/// Numeric equality: false if either side is a NaN, true for two zeros of
/// any signs, otherwise equality of the patterns.
pub open spec fn equal(a: u64, b: u64) -> bool {
    !is_nan(a) && !is_nan(b) && (a == b || (is_zero(a) && is_zero(b)))
}

/// Whether `bits` is positive or negative zero.
pub fn bits_are_zero(bits: u64) -> (r: bool)
    ensures
        r == is_zero(bits),
{
    bits % SIGN_BIT == 0
}

/// Whether `bits` is a NaN.
pub fn bits_are_nan(bits: u64) -> (r: bool)
    ensures
        r == is_nan(bits),
{
    bits % SIGN_BIT > INFINITY
}

/// Numeric equality of two patterns.
pub fn bits_equal(a: u64, b: u64) -> (r: bool)
    ensures
        r == equal(a, b),
{
    !bits_are_nan(a) && !bits_are_nan(b) && (a == b || (bits_are_zero(a) && bits_are_zero(b)))
}


/// Whether the pattern is positive or negative infinity.
pub open spec fn is_infinite(bits: u64) -> bool {
    magnitude(bits) == INFINITY
}

/// The 11-bit exponent field.
pub open spec fn biased_exponent(bits: u64) -> nat {
    (magnitude(bits) / HIDDEN_BIT) as nat
}

/// The 52-bit fraction field.
pub open spec fn fraction(bits: u64) -> nat {
    (magnitude(bits) % HIDDEN_BIT) as nat
}

/// The integer significand of a finite pattern: the fraction, with the
/// implicit leading bit for a normal number.
pub open spec fn significand(bits: u64) -> nat {
    if biased_exponent(bits) == 0 {
        fraction(bits)
    } else {
        HIDDEN_BIT as nat + fraction(bits)
    }
}

/// The power of two that scales the significand of a finite pattern: the
/// pattern stands for `significand * 2^exponent`, negated if the sign is set.
pub open spec fn exponent(bits: u64) -> int {
    if biased_exponent(bits) == 0 {
        -1074
    } else {
        biased_exponent(bits) - 1075
    }
}

/// The magnitude `mag` with the given sign.
pub open spec fn with_sign(negative: bool, mag: u64) -> u64 {
    if negative {
        (SIGN_BIT + mag) as u64
    } else {
        mag
    }
}

/// The pattern with its sign flipped.
pub open spec fn negate(bits: u64) -> u64 {
    with_sign(!is_negative(bits), magnitude(bits))
}

/// The number of binary digits of `m`: zero for zero.
pub open spec fn bit_length(m: nat) -> nat
    decreases m,
{
    if m == 0 {
        0
    } else {
        1 + bit_length(m / 2)
    }
}

/// `m / d` rounded to the nearest integer, a tie going to the even one.
pub open spec fn round_half_even(m: nat, d: nat) -> nat {
    let q = m / d;
    let r = m % d;
    if 2 * r > d || (2 * r == d && q % 2 == 1) {
        q + 1
    } else {
        q
    }
}

/// The exponent of the unit in the last place of the binary64 number nearest
/// to `m * 2^e`: it leaves 53 significant bits, but is never below that of
/// the subnormal numbers.
pub open spec fn result_exponent(m: nat, e: int) -> int {
    let t = e + bit_length(m) - 53;
    if t > -1074 {
        t
    } else {
        -1074
    }
}

/// `m * 2^e` in units of `2^result_exponent(m, e)`, rounded to the nearest
/// integer, a tie going to the even one.
pub open spec fn rounded_significand(m: nat, e: int) -> nat {
    let target = result_exponent(m, e);
    if target <= e {
        m * pow2((e - target) as nat)
    } else {
        round_half_even(m, pow2((target - e) as nat))
    }
}

/// The magnitude of the binary64 number nearest to `m * 2^e`, for `m > 0`:
/// round to nearest, ties to even, infinity where the exponent overflows.
///
/// Exponent field and significand are summed, so that a significand rounded
/// up to the next power of two carries into the exponent.
pub open spec fn round_magnitude(m: nat, e: int) -> u64 {
    let raw = (result_exponent(m, e) + 1074) * HIDDEN_BIT + rounded_significand(m, e);
    if raw >= INFINITY {
        INFINITY
    } else {
        raw as u64
    }
}

proof fn lemma_pow2_values()
    ensures
        pow2(0) == 1,
        pow2(1) == 2,
        pow2(52) == 0x10_0000_0000_0000,
        pow2(53) == 0x20_0000_0000_0000,
        pow2(63) == 0x8000_0000_0000_0000,
        pow2(64) == 0x1_0000_0000_0000_0000,
        pow2(117) == 0x20_0000_0000_0000_0000_0000_0000_0000,
        pow2(127) == 0x8000_0000_0000_0000_0000_0000_0000_0000,
        pow2(128) == 0x1_0000_0000_0000_0000_0000_0000_0000_0000,
{
    lemma2_to64();
    lemma_pow2_adds(32, 20);
    lemma_pow2_adds(32, 21);
    lemma_pow2_adds(32, 31);
    lemma_pow2_adds(64, 53);
    lemma_pow2_adds(64, 63);
    lemma_pow2_adds(64, 64);
}

proof fn lemma_pow2_monotonic(a: nat, b: nat)
    requires
        a <= b,
    ensures
        pow2(a) <= pow2(b),
{
    if a < b {
        lemma_pow2_strictly_increases(a, b);
    }
}

/// A positive `m` lies between the two powers of two that its bit length
/// names.
pub proof fn lemma_bit_length_bounds(m: nat)
    requires
        m > 0,
    ensures
        bit_length(m) >= 1,
        pow2((bit_length(m) - 1) as nat) <= m < pow2(bit_length(m)),
    decreases m,
{
    lemma2_to64();
    if m == 1 {
        assert(bit_length(1) == 1 + bit_length(0));
    } else {
        lemma_bit_length_bounds(m / 2);
        let l = bit_length(m / 2);
        lemma_pow2_unfold(l);
        lemma_pow2_unfold(l + 1);
    }
}

/// A number below `2^n` has at most `n` binary digits.
pub proof fn lemma_bit_length_below(m: nat, n: nat)
    requires
        m < pow2(n),
    ensures
        bit_length(m) <= n,
    decreases n,
{
    lemma2_to64();
    if m == 0 {
    } else if n == 0 {
    } else {
        lemma_pow2_unfold(n);
        lemma_bit_length_below(m / 2, (n - 1) as nat);
    }
}

/// The rounded significand of a positive number has at most 53 bits, or is
/// the 54-bit power of two; above the subnormal range it has its leading bit.
pub proof fn lemma_rounded_significand_bounds(m: nat, e: int)
    requires
        m > 0,
    ensures
        rounded_significand(m, e) <= pow2(53),
        result_exponent(m, e) > -1074 ==> rounded_significand(m, e) >= pow2(52),
{
    let len = bit_length(m);
    let target = result_exponent(m, e);
    lemma_bit_length_bounds(m);
    if target <= e {
        let s = (e - target) as nat;
        lemma_pow2_pos(s);
        lemma_pow2_adds(len, s);
        lemma_pow2_monotonic(len + s, 53);
        lemma_mul_strict_inequality(m as int, pow2(len) as int, pow2(s) as int);
        if target > -1074 {
            lemma_pow2_adds((len - 1) as nat, s);
            lemma_mul_inequality(pow2((len - 1) as nat) as int, m as int, pow2(s) as int);
        }
    } else {
        let k = (target - e) as nat;
        let d = pow2(k);
        lemma_pow2_pos(k);
        lemma_pow2_adds(k, 53);
        lemma_pow2_monotonic(len, k + 53);
        lemma_fundamental_div_mod(m as int, d as int);
        lemma_mod_bound(m as int, d as int);
        let q0 = m / d;
        assert(q0 < pow2(53)) by (nonlinear_arith)
            requires
                m < d * pow2(53),
                m == d * q0 + m % d,
                0 <= m % d,
                d > 0,
        ;
        if target > -1074 {
            lemma_pow2_adds(k, 52);
            let p = pow2(52);
            assert(q0 >= p) by (nonlinear_arith)
                requires
                    m >= d * p,
                    m == d * q0 + m % d,
                    m % d < d,
                    d > 0,
            ;
        }
    }
}

/// A number scaled by two to the 1024th or more rounds to infinity.
pub proof fn lemma_round_overflows(m: nat, e: int)
    requires
        m > 0,
        e >= 1024,
    ensures
        round_magnitude(m, e) == INFINITY,
{
    lemma_pow2_values();
    lemma_bit_length_bounds(m);
    lemma_rounded_significand_bounds(m, e);
    let target = result_exponent(m, e);
    assert((target + 1074) * HIDDEN_BIT >= 2046 * HIDDEN_BIT) by (nonlinear_arith)
        requires
            target >= 972,
    ;
}

/// A number below `2^n`, scaled down so far that it lies below a quarter of
/// the least subnormal number, rounds to zero.
pub proof fn lemma_round_vanishes(m: nat, n: nat, e: int)
    requires
        m < pow2(n),
        e + n < -1075,
    ensures
        round_magnitude(m, e) == 0,
{
    lemma_pow2_values();
    lemma_bit_length_below(m, n);
    let k = (-1074 - e) as nat;
    let d = pow2(k);
    lemma_pow2_monotonic(n + 2, k);
    lemma_pow2_unfold(n + 2);
    lemma_pow2_unfold(n + 1);
    lemma_small_mod(m, d);
    lemma_basic_div(m as int, d as int);
    assert(0 * HIDDEN_BIT == 0) by (nonlinear_arith);
}

/// Two to the power `k`.
fn power_of_two(k: u32) -> (p: u128)
    requires
        k < 128,
    ensures
        p == pow2(k as nat),
{
    let mut p: u128 = 1;
    let mut i: u32 = 0;
    proof {
        lemma_pow2_values();
    }
    while i < k
        invariant
            i <= k,
            k < 128,
            p == pow2(i as nat),
        decreases k - i,
    {
        proof {
            lemma_pow2_values();
            lemma_pow2_unfold((i + 1) as nat);
            lemma_pow2_strictly_increases((i + 1) as nat, 128);
        }
        p = p * 2;
        i += 1;
    }
    p
}

/// The number of binary digits of `m`.
fn count_bits(m: u128) -> (len: u32)
    ensures
        len == bit_length(m as nat),
        len <= 128,
{
    let mut len: u32 = 0;
    let mut rest: u128 = m;
    proof {
        lemma_pow2_values();
        lemma_bit_length_below(m as nat, 128);
    }
    while rest > 0
        invariant
            len + bit_length(rest as nat) == bit_length(m as nat),
            bit_length(m as nat) <= 128,
        decreases rest,
    {
        rest = rest / 2;
        len += 1;
    }
    len
}

/// The binary64 number nearest to `m * 2^e`, with the given sign.
pub(crate) fn round_pack(negative: bool, m: u128, e: i32) -> (bits: u64)
    requires
        m > 0,
        -4000 <= e <= 4000,
    ensures
        bits == with_sign(negative, round_magnitude(m as nat, e as int)),
{
    let len: i32 = count_bits(m) as i32;
    let t: i32 = e + len - 53;
    let target: i32 = if t > -1074 { t } else { -1074 };
    proof {
        lemma_pow2_values();
        lemma_rounded_significand_bounds(m as nat, e as int);
        lemma_bit_length_bounds(m as nat);
    }
    let mag: u64 = if target >= 972 {
        INFINITY
    } else {
        let q: u64 = if target <= e {
            let shift: u32 = (e - target) as u32;
            let scale = power_of_two(shift);
            (m * scale) as u64
        } else {
            let k: i32 = target - e;
            if k > 128 {
                proof {
                    let d = pow2(k as nat);
                    lemma_pow2_monotonic(128, (k - 1) as nat);
                    lemma_pow2_unfold(k as nat);
                    lemma_small_mod(m as nat, d);
                    lemma_basic_div(m as int, d as int);
                }
                0
            } else if k == 128 {
                proof {
                    let d = pow2(128);
                    lemma_small_mod(m as nat, d);
                    lemma_basic_div(m as int, d as int);
                }
                if m > 0x8000_0000_0000_0000_0000_0000_0000_0000 {
                    1
                } else {
                    0
                }
            } else {
                let d = power_of_two(k as u32);
                proof {
                    lemma_pow2_pos(k as nat);
                    lemma_pow2_monotonic(k as nat, 127);
                    lemma_mod_bound(m as int, d as int);
                }
                let q0 = m / d;
                let r = m % d;
                if 2 * r > d || (2 * r == d && q0 % 2 == 1) {
                    (q0 + 1) as u64
                } else {
                    q0 as u64
                }
            }
        };
        let raw: u64 = (target + 1074) as u64 * HIDDEN_BIT + q;
        if raw >= INFINITY {
            INFINITY
        } else {
            raw
        }
    };
    if negative {
        SIGN_BIT + mag
    } else {
        mag
    }
}


/// The product of two patterns, rounded to nearest, ties to even.
///
/// A NaN operand, or infinity times zero, gives the NaN; the sign of any
/// other result is the exclusive or of the operands' signs.
pub open spec fn product(a: u64, b: u64) -> u64 {
    let negative = is_negative(a) != is_negative(b);
    if is_nan(a) || is_nan(b) {
        QUIET_NAN
    } else if is_infinite(a) || is_infinite(b) {
        if is_zero(a) || is_zero(b) {
            QUIET_NAN
        } else {
            with_sign(negative, INFINITY)
        }
    } else if is_zero(a) || is_zero(b) {
        with_sign(negative, 0)
    } else {
        with_sign(
            negative,
            round_magnitude(significand(a) * significand(b), exponent(a) + exponent(b)),
        )
    }
}

/// How far the significand `m` is shifted left to fill 53 bits.
pub open spec fn normalizing_shift(m: nat) -> nat {
    (53 - bit_length(m)) as nat
}

/// The quotient of two finite nonzero patterns as a scaled integer: the
/// dividend's significand, shifted to 53 bits and by 64 more, divided by the
/// divisor's; the lowest bit is set if the division left a remainder, which
/// rounds as the exact quotient does.
pub open spec fn scaled_quotient(a: u64, b: u64) -> nat {
    let n = significand(a) * pow2(normalizing_shift(significand(a)) + 64);
    let d = significand(b);
    if n % d == 0 {
        2 * (n / d)
    } else {
        2 * (n / d) + 1
    }
}

/// The power of two that scales `scaled_quotient(a, b)`.
pub open spec fn scaled_quotient_exponent(a: u64, b: u64) -> int {
    exponent(a) - exponent(b) - normalizing_shift(significand(a)) - 65
}

/// The quotient of two patterns, rounded to nearest, ties to even.
///
/// A NaN operand, infinity over infinity, or zero over zero gives the NaN;
/// a nonzero number over zero gives an infinity. The sign of any other
/// result is the exclusive or of the operands' signs.
pub open spec fn quotient(a: u64, b: u64) -> u64 {
    let negative = is_negative(a) != is_negative(b);
    if is_nan(a) || is_nan(b) {
        QUIET_NAN
    } else if is_infinite(a) {
        if is_infinite(b) {
            QUIET_NAN
        } else {
            with_sign(negative, INFINITY)
        }
    } else if is_infinite(b) {
        with_sign(negative, 0)
    } else if is_zero(b) {
        if is_zero(a) {
            QUIET_NAN
        } else {
            with_sign(negative, INFINITY)
        }
    } else if is_zero(a) {
        with_sign(negative, 0)
    } else {
        with_sign(
            negative,
            round_magnitude(scaled_quotient(a, b), scaled_quotient_exponent(a, b)),
        )
    }
}

/// The integer significand of `bits`.
fn significand_of(bits: u64) -> (m: u64)
    ensures
        m == significand(bits),
        m < 0x20_0000_0000_0000,
        magnitude(bits) != 0 && magnitude(bits) < INFINITY ==> m > 0,
{
    let mag = bits % SIGN_BIT;
    if mag / HIDDEN_BIT == 0 {
        mag % HIDDEN_BIT
    } else {
        HIDDEN_BIT + mag % HIDDEN_BIT
    }
}

/// The exponent that scales the significand of `bits`.
fn exponent_of(bits: u64) -> (e: i32)
    ensures
        e == exponent(bits),
        -1074 <= e <= 972,
        magnitude(bits) < INFINITY ==> e <= 971,
{
    let mag = bits % SIGN_BIT;
    let biased = mag / HIDDEN_BIT;
    if biased == 0 {
        -1074
    } else {
        biased as i32 - 1075
    }
}

/// The magnitude `mag` with the given sign.
fn signed(negative: bool, mag: u64) -> (bits: u64)
    requires
        mag < SIGN_BIT,
    ensures
        bits == with_sign(negative, mag),
{
    if negative {
        SIGN_BIT + mag
    } else {
        mag
    }
}

/// The product of two binary64 patterns.
pub fn bits_product(a: u64, b: u64) -> (r: u64)
    ensures
        r == product(a, b),
{
    let negative = (a >= SIGN_BIT) != (b >= SIGN_BIT);
    let mag_a = a % SIGN_BIT;
    let mag_b = b % SIGN_BIT;
    if mag_a > INFINITY || mag_b > INFINITY {
        QUIET_NAN
    } else if mag_a == INFINITY || mag_b == INFINITY {
        if mag_a == 0 || mag_b == 0 {
            QUIET_NAN
        } else {
            signed(negative, INFINITY)
        }
    } else if mag_a == 0 || mag_b == 0 {
        signed(negative, 0)
    } else {
        let ma = significand_of(a) as u128;
        let mb = significand_of(b) as u128;
        assert(0 < ma * mb < 0x1_0000_0000_0000_0000_0000_0000_0000_0000) by (nonlinear_arith)
            requires
                0 < ma < 0x20_0000_0000_0000,
                0 < mb < 0x20_0000_0000_0000,
        ;
        round_pack(negative, ma * mb, exponent_of(a) + exponent_of(b))
    }
}

/// The quotient of two binary64 patterns.
pub fn bits_quotient(a: u64, b: u64) -> (r: u64)
    ensures
        r == quotient(a, b),
{
    let negative = (a >= SIGN_BIT) != (b >= SIGN_BIT);
    let mag_a = a % SIGN_BIT;
    let mag_b = b % SIGN_BIT;
    if mag_a > INFINITY || mag_b > INFINITY {
        QUIET_NAN
    } else if mag_a == INFINITY {
        if mag_b == INFINITY {
            QUIET_NAN
        } else {
            signed(negative, INFINITY)
        }
    } else if mag_b == INFINITY {
        signed(negative, 0)
    } else if mag_b == 0 {
        if mag_a == 0 {
            QUIET_NAN
        } else {
            signed(negative, INFINITY)
        }
    } else if mag_a == 0 {
        signed(negative, 0)
    } else {
        let ma = significand_of(a) as u128;
        let mb = significand_of(b) as u128;
        let len = count_bits(ma);
        proof {
            lemma_pow2_values();
            lemma_bit_length_bounds(ma as nat);
            lemma_bit_length_below(ma as nat, 53);
        }
        let shift: u32 = 53 - len;
        let scale = power_of_two(shift + 64);
        proof {
            lemma_pow2_adds(len as nat, (shift + 64) as nat);
            lemma_mul_strict_inequality(ma as int, pow2(len as nat) as int, scale as int);
            lemma_pow2_monotonic(64, (shift + 64) as nat);
            lemma_mul_inequality(1, ma as int, scale as int);
        }
        let n: u128 = ma * scale;
        let q = n / mb;
        let sticky: u128 = if n % mb == 0 { 0 } else { 1 };
        proof {
            lemma_fundamental_div_mod(n as int, mb as int);
            lemma_mod_bound(n as int, mb as int);
            assert(q <= n) by (nonlinear_arith)
                requires
                    n == mb * q + n % mb,
                    0 <= n % mb,
                    mb >= 1,
                    q >= 0,
            ;
            assert(q >= 1) by (nonlinear_arith)
                requires
                    n == mb * q + n % mb,
                    n % mb < mb,
                    mb < 0x20_0000_0000_0000,
                    n >= 0x1_0000_0000_0000_0000,
                    q >= 0,
            ;
        }
        round_pack(negative, 2 * q + sticky, exponent_of(a) - exponent_of(b) - shift as i32 - 65)
    }
}


/// The significand of a finite pattern with the pattern's sign.
pub open spec fn signed_significand(bits: u64) -> int {
    if is_negative(bits) {
        -(significand(bits) as int)
    } else {
        significand(bits) as int
    }
}

/// The lesser of the exponents of two finite patterns.
pub open spec fn lesser_exponent(a: u64, b: u64) -> int {
    if exponent(a) <= exponent(b) {
        exponent(a)
    } else {
        exponent(b)
    }
}

/// The exact sum of two finite patterns, in units of two to the lesser of
/// their exponents.
pub open spec fn exact_sum(a: u64, b: u64) -> int {
    let e = lesser_exponent(a, b);
    signed_significand(a) * pow2((exponent(a) - e) as nat) + signed_significand(b) * pow2(
        (exponent(b) - e) as nat,
    )
}

/// The sum of two patterns: the exact sum, rounded once to nearest, ties to
/// even.
///
/// A NaN operand, or the sum of opposite infinities, gives the NaN. An exact
/// sum of zero is negative zero only if both operands are negative.
pub open spec fn sum(a: u64, b: u64) -> u64 {
    if is_nan(a) || is_nan(b) {
        QUIET_NAN
    } else if is_infinite(a) {
        if is_infinite(b) && is_negative(a) != is_negative(b) {
            QUIET_NAN
        } else {
            a
        }
    } else if is_infinite(b) {
        b
    } else {
        let s = exact_sum(a, b);
        if s == 0 {
            with_sign(is_negative(a) && is_negative(b), 0)
        } else if s > 0 {
            round_magnitude(s as nat, lesser_exponent(a, b))
        } else {
            with_sign(true, round_magnitude((-s) as nat, lesser_exponent(a, b)))
        }
    }
}

/// The difference of two patterns: the sum of the first and the negated
/// second.
pub open spec fn difference(a: u64, b: u64) -> u64 {
    sum(a, negate(b))
}

/// A number with `n` binary digits lies in only one such range.
pub proof fn lemma_bit_length_is(x: nat, n: nat)
    requires
        n >= 1,
        pow2((n - 1) as nat) <= x < pow2(n),
    ensures
        bit_length(x) == n,
{
    lemma_pow2_pos((n - 1) as nat);
    lemma_bit_length_bounds(x);
    let l = bit_length(x);
    if l < n {
        lemma_pow2_monotonic(l, (n - 1) as nat);
    } else if l > n {
        lemma_pow2_monotonic(n, (l - 1) as nat);
    }
}

/// Rounds `mh * 2^d + ml` or `mh * 2^d - ml` in units of `2^el`, where `mh`
/// is a full 53-bit significand and `ml` lies more than 64 places below it:
/// the result is `mh` at exponent `el + d`.
proof fn lemma_round_far(mh: nat, ml: nat, el: int, d: nat, subtract: bool)
    requires
        pow2(52) <= mh < pow2(53),
        ml < pow2(53),
        d >= 65,
        el + d > -1074,
        el >= -1074,
    ensures
        ({
            let s = if subtract {
                (mh * pow2(d) - ml) as nat
            } else {
                mh * pow2(d) + ml
            };
            &&& mh * pow2(d) - ml > 0
            &&& (result_exponent(s, el) + 1074) * HIDDEN_BIT + rounded_significand(s, el) == (el + d
                + 1074) * HIDDEN_BIT + mh
        }),
{
    lemma_pow2_values();
    let big = pow2(d);
    let half = pow2((d - 1) as nat);
    lemma_pow2_unfold(d);
    lemma_pow2_monotonic(64, (d - 1) as nat);
    lemma_pow2_adds(52, d);
    lemma_pow2_adds(53, d);
    lemma_pow2_adds(52, (d - 1) as nat);
    lemma_pow2_adds(53, (d - 1) as nat);
    let p52 = pow2(52);
    let p53 = pow2(53);
    assert(p53 == 2 * p52);
    assert(big == 2 * half);
    assert(half >= 0x1_0000_0000_0000_0000);
    assert(mh * big >= p52 * big) by (nonlinear_arith)
        requires
            mh >= p52,
            big > 0,
    ;
    assert(p52 * big == p53 * half) by (nonlinear_arith)
        requires
            p53 == 2 * p52,
            big == 2 * half,
    ;
    assert((mh + 1) * big <= p53 * big) by (nonlinear_arith)
        requires
            mh + 1 <= p53,
            big > 0,
    ;
    assert((mh + 1) * big == mh * big + big) by (nonlinear_arith);
    assert((mh - 1) * big == mh * big - big) by (nonlinear_arith);
    assert(p52 * big >= big) by (nonlinear_arith)
        requires
            p52 >= 1,
            big > 0,
    ;
    if !subtract || ml == 0 {
        let s = mh * big + ml;
        lemma_bit_length_is(s, 53 + d);
        lemma_fundamental_div_mod_converse(s as int, big as int, mh as int, ml as int);
        assert(result_exponent(s, el) == el + d);
        assert(rounded_significand(s, el) == round_half_even(s, big));
        assert(rounded_significand(s, el) == mh);
    } else if mh > p52 {
        let s = (mh * big - ml) as nat;
        assert(mh * big >= (p52 + 1) * big) by (nonlinear_arith)
            requires
                mh >= p52 + 1,
                big > 0,
        ;
        assert((p52 + 1) * big == p52 * big + big) by (nonlinear_arith);
        lemma_bit_length_is(s, 53 + d);
        lemma_fundamental_div_mod_converse(
            s as int,
            big as int,
            mh as int - 1,
            big as int - ml as int,
        );
        assert(result_exponent(s, el) == el + d);
        assert(rounded_significand(s, el) == round_half_even(s, big));
        assert(rounded_significand(s, el) == mh);
    } else {
        let s = (mh * big - ml) as nat;
        assert(mh * big == p53 * half);
        assert(p53 * half - half == (p53 - 1) * half) by (nonlinear_arith);
        assert(p52 * half <= p53 * half - half) by (nonlinear_arith)
            requires
                p53 == 2 * p52,
                p52 >= 1,
                half > 0,
        ;
        assert(s >= p52 * half);
        assert(s < p53 * half);
        lemma_bit_length_is(s, 52 + d);
        lemma_fundamental_div_mod_converse(
            s as int,
            half as int,
            p53 as int - 1,
            half as int - ml as int,
        );
        assert(result_exponent(s, el) == el + d - 1);
        assert(rounded_significand(s, el) == round_half_even(s, half));
        assert(rounded_significand(s, el) == p53);
    }
}

/// Where the exponents of two finite patterns differ by more than 64, the
/// sum is the operand with the greater exponent.
proof fn lemma_sum_far(hi: u64, lo: u64)
    requires
        magnitude(hi) < INFINITY,
        magnitude(lo) < INFINITY,
        exponent(hi) - exponent(lo) > 64,
    ensures
        sum(hi, lo) == hi,
        sum(lo, hi) == hi,
{
    lemma_pow2_values();
    let mh = significand(hi);
    let ml = significand(lo);
    let el = exponent(lo);
    let d = (exponent(hi) - el) as nat;
    let subtract = is_negative(hi) != is_negative(lo);
    lemma_round_far(mh, ml, el, d, subtract);
    let big = pow2(d);
    let s_abs = if subtract {
        (mh * big - ml) as nat
    } else {
        mh * big + ml
    };
    assert(lesser_exponent(hi, lo) == el);
    assert(lesser_exponent(lo, hi) == el);
    assert(pow2(0) == 1);
    assert(ml * 1 == ml) by (nonlinear_arith);
    assert((-(ml as int)) * 1 == -(ml as int)) by (nonlinear_arith);
    assert((-(mh as int)) * big == -(mh * big)) by (nonlinear_arith);
    assert(exact_sum(hi, lo) == exact_sum(lo, hi));
    assert(exact_sum(hi, lo) == if is_negative(hi) {
        -(s_abs as int)
    } else {
        s_abs as int
    });
    assert(magnitude(hi) == (exponent(hi) + 1074) * HIDDEN_BIT + mh);
    assert(round_magnitude(s_abs, el) == magnitude(hi));
}

/// The sum of two binary64 patterns.
pub fn bits_sum(a: u64, b: u64) -> (r: u64)
    ensures
        r == sum(a, b),
{
    let neg_a = a >= SIGN_BIT;
    let neg_b = b >= SIGN_BIT;
    let mag_a = a % SIGN_BIT;
    let mag_b = b % SIGN_BIT;
    if mag_a > INFINITY || mag_b > INFINITY {
        QUIET_NAN
    } else if mag_a == INFINITY {
        if mag_b == INFINITY && neg_a != neg_b {
            QUIET_NAN
        } else {
            a
        }
    } else if mag_b == INFINITY {
        b
    } else {
        let ea = exponent_of(a);
        let eb = exponent_of(b);
        let ma = significand_of(a) as u128;
        let mb = significand_of(b) as u128;
        proof {
            lemma_pow2_values();
        }
        if ea - eb > 64 {
            proof {
                lemma_sum_far(a, b);
            }
            a
        } else if eb - ea > 64 {
            proof {
                lemma_sum_far(b, a);
            }
            b
        } else {
            let e = if ea <= eb { ea } else { eb };
            let scale_a = power_of_two((ea - e) as u32);
            let scale_b = power_of_two((eb - e) as u32);
            proof {
                lemma_pow2_monotonic((ea - e) as nat, 64);
                lemma_pow2_monotonic((eb - e) as nat, 64);
                assert(ma * scale_a < 0x20_0000_0000_0000_0000_0000_0000_0000) by (nonlinear_arith)
                    requires
                        ma < 0x20_0000_0000_0000,
                        scale_a <= 0x1_0000_0000_0000_0000,
                ;
                assert(mb * scale_b < 0x20_0000_0000_0000_0000_0000_0000_0000) by (nonlinear_arith)
                    requires
                        mb < 0x20_0000_0000_0000,
                        scale_b <= 0x1_0000_0000_0000_0000,
                ;
                assert((-(ma as int)) * scale_a == -(ma * scale_a)) by (nonlinear_arith);
                assert((-(mb as int)) * scale_b == -(mb * scale_b)) by (nonlinear_arith);
            }
            let wide_a: u128 = ma * scale_a;
            let wide_b: u128 = mb * scale_b;
            if neg_a == neg_b {
                let total = wide_a + wide_b;
                if total == 0 {
                    signed(neg_a, 0)
                } else {
                    round_pack(neg_a, total, e)
                }
            } else if wide_a == wide_b {
                0
            } else if wide_a > wide_b {
                round_pack(neg_a, wide_a - wide_b, e)
            } else {
                round_pack(neg_b, wide_b - wide_a, e)
            }
        }
    }
}

/// The pattern with its sign flipped.
pub fn bits_negated(bits: u64) -> (r: u64)
    ensures
        r == negate(bits),
{
    if bits >= SIGN_BIT {
        bits - SIGN_BIT
    } else {
        bits + SIGN_BIT
    }
}

/// The difference of two binary64 patterns.
pub fn bits_difference(a: u64, b: u64) -> (r: u64)
    ensures
        r == difference(a, b),
{
    bits_sum(a, bits_negated(b))
}

} // verus!
