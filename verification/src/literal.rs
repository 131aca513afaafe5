//! Number literals: from decimal digits to the nearest binary64 number.

use vstd::prelude::*;
use vstd::arithmetic::power2::{
    lemma_pow2_adds, lemma_pow2_pos, lemma_pow2_strictly_increases, lemma_pow2_unfold, pow2,
};
use vstd::arithmetic::div_mod::lemma_fundamental_div_mod_converse;
use crate::binary64::{
    bit_length, lemma_bit_length_bounds, lemma_bit_length_is, lemma_round_overflows,
    lemma_round_vanishes, round_magnitude, round_pack, INFINITY,
};

verus! {

/// The number that a sequence of bits stands for, the least significant bit
/// first.
pub open spec fn bits_value(bits: Seq<bool>) -> nat
    decreases bits.len(),
{
    if bits.len() == 0 {
        0
    } else {
        bits_value(bits.drop_last()) + if bits.last() {
            pow2((bits.len() - 1) as nat)
        } else {
            0
        }
    }
}

/// The first `i` bits of `bits`, or all of them if there are fewer.
pub open spec fn low_bits(bits: Seq<bool>, i: int) -> Seq<bool> {
    if i < bits.len() {
        bits.subrange(0, i)
    } else {
        bits
    }
}

/// The weight of the bit at position `i`: two to the `i` if the bit is set,
/// zero if it is not or if the position is past the end.
pub open spec fn bit_weight(bits: Seq<bool>, i: int) -> nat {
    if 0 <= i < bits.len() && bits[i] {
        pow2(i as nat)
    } else {
        0
    }
}

proof fn lemma_low_bits_step(bits: Seq<bool>, i: int)
    requires
        0 <= i,
    ensures
        bits_value(low_bits(bits, i + 1)) == bits_value(low_bits(bits, i)) + bit_weight(bits, i),
{
    if i < bits.len() {
        assert(low_bits(bits, i + 1).drop_last() =~= low_bits(bits, i));
    }
}

proof fn lemma_bits_value_bound(bits: Seq<bool>)
    ensures
        bits_value(bits) < pow2(bits.len()),
    decreases bits.len(),
{
    if bits.len() == 0 {
        lemma_pow2_pos(0);
    } else {
        lemma_bits_value_bound(bits.drop_last());
        lemma_pow2_unfold(bits.len());
    }
}

proof fn lemma_bits_value_push(bits: Seq<bool>, bit: bool)
    ensures
        bits_value(bits.push(bit)) == bits_value(bits) + if bit {
            pow2(bits.len())
        } else {
            0
        },
{
    assert(bits.push(bit).drop_last() =~= bits);
}

/// `count` zero bits.
pub open spec fn zero_bits(count: nat) -> Seq<bool> {
    Seq::new(count, |i: int| false)
}

proof fn lemma_zero_bits_value(count: nat)
    ensures
        bits_value(zero_bits(count)) == 0,
    decreases count,
{
    if count > 0 {
        assert(zero_bits(count).drop_last() =~= zero_bits((count - 1) as nat));
        lemma_zero_bits_value((count - 1) as nat);
    }
}

proof fn lemma_shifted_value(bits: Seq<bool>, count: nat)
    ensures
        bits_value(zero_bits(count) + bits) == bits_value(bits) * pow2(count),
    decreases bits.len(),
{
    let scale = pow2(count);
    if bits.len() == 0 {
        assert(zero_bits(count) + bits =~= zero_bits(count));
        lemma_zero_bits_value(count);
        assert(0 * scale == 0) by (nonlinear_arith);
    } else {
        let whole = zero_bits(count) + bits;
        assert(whole.drop_last() =~= zero_bits(count) + bits.drop_last());
        assert(whole.last() == bits.last());
        assert(whole.len() - 1 == (bits.len() - 1) + count);
        lemma_shifted_value(bits.drop_last(), count);
        lemma_pow2_adds((bits.len() - 1) as nat, count);
        let rest = bits_value(bits.drop_last());
        let top = pow2((bits.len() - 1) as nat);
        assert((rest + top) * scale == rest * scale + top * scale) by (nonlinear_arith);
        assert((rest + 0) * scale == rest * scale) by (nonlinear_arith);
    }
}

/// The bits of `a + b`.
fn add_bits(a: &Vec<bool>, b: &Vec<bool>) -> (sum: Vec<bool>)
    ensures
        bits_value(sum@) == bits_value(a@) + bits_value(b@),
{
    let n = if a.len() >= b.len() { a.len() } else { b.len() };
    let mut sum: Vec<bool> = Vec::new();
    let mut carry = false;
    let mut i: usize = 0;
    while i < n
        invariant
            i <= n,
            n >= a.len(),
            n >= b.len(),
            sum@.len() == i,
            bits_value(sum@) + (if carry { pow2(i as nat) } else { 0 }) == bits_value(
                low_bits(a@, i as int),
            ) + bits_value(low_bits(b@, i as int)),
        decreases n - i,
    {
        let x = i < a.len() && a[i];
        let y = i < b.len() && b[i];
        let bit = (x != y) != carry;
        let next = (x && y) || (x && carry) || (y && carry);
        proof {
            lemma_low_bits_step(a@, i as int);
            lemma_low_bits_step(b@, i as int);
            lemma_bits_value_push(sum@, bit);
            lemma_pow2_unfold((i + 1) as nat);
        }
        sum.push(bit);
        carry = next;
        i += 1;
    }
    proof {
        lemma_bits_value_push(sum@, carry);
    }
    sum.push(carry);
    sum
}

/// The bits of `a - b` on as many places as the longer of the two has, and
/// whether `a < b`; in that case the bits are those of `a - b` plus two to
/// that many places.
fn subtract_bits(a: &Vec<bool>, b: &Vec<bool>) -> (result: (Vec<bool>, bool))
    ensures
        result.1 == (bits_value(a@) < bits_value(b@)),
        !result.1 ==> bits_value(result.0@) == bits_value(a@) - bits_value(b@),
{
    let n = if a.len() >= b.len() { a.len() } else { b.len() };
    let mut difference: Vec<bool> = Vec::new();
    let mut borrow = false;
    let mut i: usize = 0;
    while i < n
        invariant
            i <= n,
            n >= a.len(),
            n >= b.len(),
            difference@.len() == i,
            bits_value(difference@) + bits_value(low_bits(b@, i as int)) == bits_value(
                low_bits(a@, i as int),
            ) + (if borrow { pow2(i as nat) } else { 0 }),
        decreases n - i,
    {
        let x = i < a.len() && a[i];
        let y = i < b.len() && b[i];
        let bit = (x != y) != borrow;
        let next = (!x && y) || (!x && borrow) || (y && borrow);
        proof {
            lemma_low_bits_step(a@, i as int);
            lemma_low_bits_step(b@, i as int);
            lemma_bits_value_push(difference@, bit);
            lemma_pow2_unfold((i + 1) as nat);
        }
        difference.push(bit);
        borrow = next;
        i += 1;
    }
    proof {
        lemma_bits_value_bound(difference@);
        lemma_bits_value_bound(a@);
        lemma_bits_value_bound(b@);
        if a.len() < n {
            lemma_pow2_strictly_increases(a.len() as nat, n as nat);
        }
        if b.len() < n {
            lemma_pow2_strictly_increases(b.len() as nat, n as nat);
        }
    }
    (difference, borrow)
}

/// The bits of `bits` shifted left by `count` places.
fn shift_bits(bits: &Vec<bool>, count: usize) -> (shifted: Vec<bool>)
    ensures
        bits_value(shifted@) == bits_value(bits@) * pow2(count as nat),
{
    let mut shifted: Vec<bool> = Vec::new();
    let mut i: usize = 0;
    while i < count
        invariant
            i <= count,
            shifted@ == zero_bits(i as nat),
        decreases count - i,
    {
        shifted.push(false);
        assert(shifted@ =~= zero_bits((i + 1) as nat));
        i += 1;
    }
    let mut j: usize = 0;
    while j < bits.len()
        invariant
            j <= bits.len(),
            shifted@ == zero_bits(count as nat) + bits@.subrange(0, j as int),
        decreases bits.len() - j,
    {
        shifted.push(bits[j]);
        assert(shifted@ =~= zero_bits(count as nat) + bits@.subrange(0, j + 1));
        j += 1;
    }
    proof {
        assert(bits@.subrange(0, bits@.len() as int) =~= bits@);
        lemma_shifted_value(bits@, count as nat);
    }
    shifted
}

/// The number of binary digits of the number that `bits` stands for.
fn length_of_bits(bits: &Vec<bool>) -> (length: usize)
    ensures
        length == bit_length(bits_value(bits@)),
        length <= bits@.len(),
{
    let mut i: usize = bits.len();
    proof {
        assert(low_bits(bits@, i as int) =~= bits@);
    }
    while i > 0 && !bits[i - 1]
        invariant
            i <= bits.len(),
            bits_value(bits@) == bits_value(low_bits(bits@, i as int)),
        decreases i,
    {
        proof {
            lemma_low_bits_step(bits@, i - 1);
        }
        i -= 1;
    }
    proof {
        if i > 0 {
            lemma_low_bits_step(bits@, i - 1);
            lemma_bits_value_bound(low_bits(bits@, i as int));
            lemma_bit_length_is(bits_value(bits@), i as nat);
        } else {
            assert(low_bits(bits@, 0) =~= Seq::<bool>::empty());
        }
    }
    i
}


/// Ten to the power `k`.
pub open spec fn pow10(k: nat) -> nat
    decreases k,
{
    if k == 0 {
        1
    } else {
        10 * pow10((k - 1) as nat)
    }
}

/// The number that a sequence of decimal digits stands for, the most
/// significant digit first.
pub open spec fn digits_value(digits: Seq<u8>) -> nat
    decreases digits.len(),
{
    if digits.len() == 0 {
        0
    } else {
        10 * digits_value(digits.drop_last()) + digits.last() as nat
    }
}

/// How far the numerator of a ratio is shifted left before the division, so
/// that the quotient has 64 or 65 binary digits.
pub open spec fn shift_up(numerator: nat, denominator: nat) -> nat {
    if bit_length(numerator) >= bit_length(denominator) + 64 {
        0
    } else {
        (bit_length(denominator) + 64 - bit_length(numerator)) as nat
    }
}

/// How far the denominator of a ratio is shifted left before the division,
/// so that the quotient has 64 or 65 binary digits.
pub open spec fn shift_down(numerator: nat, denominator: nat) -> nat {
    if bit_length(numerator) >= bit_length(denominator) + 64 {
        (bit_length(numerator) - bit_length(denominator) - 64) as nat
    } else {
        0
    }
}

/// The quotient of a ratio as a scaled integer: numerator or denominator is
/// shifted so that the quotient has 64 or 65 binary digits; the lowest bit
/// is set if the division left a remainder, which rounds as the exact
/// quotient does.
pub open spec fn scaled_ratio(numerator: nat, denominator: nat) -> nat {
    let n = numerator * pow2(shift_up(numerator, denominator));
    let d = denominator * pow2(shift_down(numerator, denominator));
    if n % d == 0 {
        2 * (n / d)
    } else {
        2 * (n / d) + 1
    }
}

/// The binary64 number nearest to `numerator / denominator`: round to
/// nearest, ties to even.
pub open spec fn nearest_ratio(numerator: nat, denominator: nat) -> u64 {
    if numerator == 0 {
        0
    } else {
        round_magnitude(
            scaled_ratio(numerator, denominator),
            shift_down(numerator, denominator) - shift_up(numerator, denominator) - 1,
        )
    }
}

/// The shifted numerator of a ratio lies between the shifted denominator
/// and two to the 65th times it.
proof fn lemma_scaled_bounds(numerator: nat, denominator: nat)
    requires
        numerator > 0,
        denominator > 0,
    ensures
        ({
            let n = numerator * pow2(shift_up(numerator, denominator));
            let d = denominator * pow2(shift_down(numerator, denominator));
            &&& d > 0
            &&& d <= n < d * pow2(65)
        }),
{
    let up = shift_up(numerator, denominator);
    let down = shift_down(numerator, denominator);
    let ln = bit_length(numerator);
    let ld = bit_length(denominator);
    lemma_bit_length_bounds(numerator);
    lemma_bit_length_bounds(denominator);
    lemma_pow2_pos(up);
    lemma_pow2_pos(down);
    let n = numerator * pow2(up);
    let d = denominator * pow2(down);
    let top = ln + up;
    assert(top == ld + down + 64);
    lemma_pow2_adds(ln, up);
    lemma_pow2_adds((ln - 1) as nat, up);
    lemma_pow2_adds(ld, down);
    lemma_pow2_adds((ld - 1) as nat, down);
    lemma_pow2_adds((ld + down - 1) as nat, 65);
    lemma_pow2_strictly_increases((ld + down) as nat, (top - 1) as nat);
    let pu = pow2(up);
    let pd = pow2(down);
    assert(n < pow2(ln) * pu) by (nonlinear_arith)
        requires
            n == numerator * pu,
            numerator < pow2(ln),
            pu > 0,
    ;
    assert(n >= pow2((ln - 1) as nat) * pu) by (nonlinear_arith)
        requires
            n == numerator * pu,
            numerator >= pow2((ln - 1) as nat),
            pu > 0,
    ;
    assert(d < pow2(ld) * pd) by (nonlinear_arith)
        requires
            d == denominator * pd,
            denominator < pow2(ld),
            pd > 0,
    ;
    assert(d >= pow2((ld - 1) as nat) * pd) by (nonlinear_arith)
        requires
            d == denominator * pd,
            denominator >= pow2((ld - 1) as nat),
            pd > 0,
    ;
    let low = pow2((ld + down - 1) as nat);
    let p65 = pow2(65);
    lemma_pow2_pos(65);
    assert(d * p65 >= low * p65) by (nonlinear_arith)
        requires
            d >= low,
            p65 > 0,
    ;
    assert(d > 0) by (nonlinear_arith)
        requires
            d == denominator * pd,
            denominator > 0,
            pd > 0,
    ;
}

/// The scaled quotient of a ratio is positive and below two to the 67th.
proof fn lemma_scaled_ratio_bounds(numerator: nat, denominator: nat)
    requires
        numerator > 0,
        denominator > 0,
    ensures
        0 < scaled_ratio(numerator, denominator) < pow2(67),
{
    lemma_scaled_bounds(numerator, denominator);
    let n = numerator * pow2(shift_up(numerator, denominator));
    let d = denominator * pow2(shift_down(numerator, denominator));
    let q = n / d;
    let p65 = pow2(65);
    vstd::arithmetic::div_mod::lemma_fundamental_div_mod(n as int, d as int);
    vstd::arithmetic::div_mod::lemma_mod_bound(n as int, d as int);
    assert(q >= 1 && q < p65) by (nonlinear_arith)
        requires
            n == d * q + n % d,
            0 <= n % d < d,
            d <= n < d * p65,
            d > 0,
            q >= 0,
    ;
    lemma_pow2_unfold(66);
    lemma_pow2_unfold(67);
}

/// The bits of the digit `digit`.
fn digit_bits(digit: u8) -> (bits: Vec<bool>)
    requires
        digit <= 9,
    ensures
        bits_value(bits@) == digit,
{
    let mut bits: Vec<bool> = Vec::new();
    bits.push(digit % 2 == 1);
    bits.push(digit / 2 % 2 == 1);
    bits.push(digit / 4 % 2 == 1);
    bits.push(digit / 8 % 2 == 1);
    proof {
        vstd::arithmetic::power2::lemma2_to64();
        reveal_with_fuel(bits_value, 5);
        assert(bits@.drop_last().drop_last().drop_last().drop_last() =~= Seq::<bool>::empty());
    }
    bits
}

/// The bits of ten times the number of `bits`.
fn times_ten(bits: &Vec<bool>) -> (product: Vec<bool>)
    ensures
        bits_value(product@) == 10 * bits_value(bits@),
{
    proof {
        vstd::arithmetic::power2::lemma2_to64();
    }
    let eight = shift_bits(bits, 3);
    let two = shift_bits(bits, 1);
    add_bits(&eight, &two)
}

/// The bits of the number that the decimal digits `digits` stand for.
fn digits_to_bits(digits: &Vec<u8>) -> (bits: Vec<bool>)
    requires
        forall|i: int| 0 <= i < digits@.len() ==> digits@[i] <= 9,
    ensures
        bits_value(bits@) == digits_value(digits@),
{
    let mut bits: Vec<bool> = Vec::new();
    let mut i: usize = 0;
    while i < digits.len()
        invariant
            i <= digits.len(),
            forall|k: int| 0 <= k < digits@.len() ==> digits@[k] <= 9,
            bits_value(bits@) == digits_value(digits@.subrange(0, i as int)),
        decreases digits.len() - i,
    {
        let scaled = times_ten(&bits);
        let digit = digit_bits(digits[i]);
        bits = add_bits(&scaled, &digit);
        proof {
            assert(digits@.subrange(0, i + 1).drop_last() =~= digits@.subrange(0, i as int));
        }
        i += 1;
    }
    proof {
        assert(digits@.subrange(0, i as int) =~= digits@);
    }
    bits
}

/// The bits of ten to the power `k`.
fn power_of_ten(k: usize) -> (bits: Vec<bool>)
    ensures
        bits_value(bits@) == pow10(k as nat),
{
    let mut bits: Vec<bool> = Vec::new();
    bits.push(true);
    proof {
        vstd::arithmetic::power2::lemma2_to64();
        reveal_with_fuel(bits_value, 2);
        assert(bits@.drop_last() =~= Seq::<bool>::empty());
    }
    let mut i: usize = 0;
    while i < k
        invariant
            i <= k,
            bits_value(bits@) == pow10(i as nat),
        decreases k - i,
    {
        bits = times_ten(&bits);
        i += 1;
    }
    bits
}

/// Ten to any power is positive.
proof fn lemma_pow10_pos(k: nat)
    ensures
        pow10(k) > 0,
    decreases k,
{
    if k > 0 {
        lemma_pow10_pos((k - 1) as nat);
    }
}

/// The quotient of the numbers of two bit sequences, where it lies below
/// two to the 65th, and whether the division leaves a remainder.
fn divide_bits(n: &Vec<bool>, d: &Vec<bool>) -> (result: (u128, bool))
    requires
        bits_value(d@) > 0,
        bits_value(n@) < bits_value(d@) * pow2(65),
    ensures
        result.0 == bits_value(n@) / bits_value(d@),
        result.1 == (bits_value(n@) % bits_value(d@) != 0),
        result.0 < pow2(65),
{
    let ghost dividend = bits_value(n@);
    let ghost divisor = bits_value(d@);
    let mut rest: Vec<bool> = shift_bits(n, 0);
    let mut quotient: u128 = 0;
    let mut weight: u128 = 0x1_0000_0000_0000_0000;
    let mut i: usize = 65;
    proof {
        vstd::arithmetic::power2::lemma2_to64();
        assert(dividend * 1 == dividend) by (nonlinear_arith);
        assert(0 * divisor == 0) by (nonlinear_arith);
    }
    while i > 0
        invariant
            i <= 65,
            dividend == bits_value(n@),
            divisor == bits_value(d@),
            divisor > 0,
            dividend == quotient * divisor + bits_value(rest@),
            bits_value(rest@) < divisor * pow2(i as nat),
            i > 0 ==> weight == pow2((i - 1) as nat),
            quotient + pow2(i as nat) <= pow2(65),
        decreases i,
    {
        let candidate = shift_bits(d, i - 1);
        let (difference, less) = subtract_bits(&rest, &candidate);
        proof {
            lemma_pow2_unfold(i as nat);
            vstd::arithmetic::power2::lemma2_to64();
            lemma_pow2_adds(64, 1);
            let w = pow2((i - 1) as nat);
            let q = quotient as nat;
            assert((q + w) * divisor == q * divisor + divisor * w) by (nonlinear_arith);
            assert(divisor * (2 * w) == 2 * (divisor * w)) by (nonlinear_arith);
            if i > 1 {
                lemma_pow2_unfold((i - 1) as nat);
            }
        }
        if !less {
            rest = difference;
            quotient = quotient + weight;
        }
        weight = weight / 2;
        i -= 1;
    }
    proof {
        vstd::arithmetic::power2::lemma2_to64();
        assert(divisor * 1 == divisor) by (nonlinear_arith);
        lemma_fundamental_div_mod_converse(
            dividend as int,
            divisor as int,
            quotient as int,
            bits_value(rest@) as int,
        );
    }
    let remainder = length_of_bits(&rest) != 0;
    proof {
        if bits_value(rest@) > 0 {
            lemma_bit_length_bounds(bits_value(rest@));
        }
    }
    (quotient, remainder)
}

/// The binary64 number nearest to the ratio of the numbers of two bit
/// sequences.
fn ratio_to_binary64(numerator: &Vec<bool>, denominator: &Vec<bool>) -> (bits: u64)
    requires
        bits_value(denominator@) > 0,
    ensures
        bits == nearest_ratio(bits_value(numerator@), bits_value(denominator@)),
{
    let ln = length_of_bits(numerator);
    let ld = length_of_bits(denominator);
    if ln == 0 {
        return 0;
    }
    let ghost top = bits_value(numerator@);
    let ghost bottom = bits_value(denominator@);
    proof {
        lemma_scaled_ratio_bounds(top, bottom);
        lemma_scaled_bounds(top, bottom);
    }
    let mut up: usize = 0;
    let mut down: usize = 0;
    if ln >= ld {
        let gap = ln - ld;
        if gap >= 64 {
            down = gap - 64;
        } else {
            up = 64 - gap;
        }
    } else {
        let gap = ld - ln;
        if gap > 3000 {
            proof {
                lemma_round_vanishes(scaled_ratio(top, bottom), 67, -(gap + 64) - 1);
            }
            return 0;
        }
        up = gap + 64;
    }
    if down > 3000 {
        proof {
            lemma_round_overflows(scaled_ratio(top, bottom), down - 1);
        }
        return INFINITY;
    }
    let n = shift_bits(numerator, up);
    let d = shift_bits(denominator, down);
    let (quotient, remainder) = divide_bits(&n, &d);
    proof {
        vstd::arithmetic::power2::lemma2_to64();
        lemma_pow2_adds(64, 1);
    }
    let sticky: u128 = if remainder { 1 } else { 0 };
    round_pack(false, 2 * quotient + sticky, down as i32 - up as i32 - 1)
}


/// Whether `c` is a decimal digit.
pub open spec fn is_digit(c: char) -> bool {
    '0' <= c <= '9'
}

/// The value of the decimal digit `c`.
pub open spec fn digit_of(c: char) -> u8 {
    (c as u32 - '0' as u32) as u8
}

/// The digits of a number literal, without its dot.
pub open spec fn literal_digits(lexeme: Seq<char>) -> Seq<u8>
    decreases lexeme.len(),
{
    if lexeme.len() == 0 {
        Seq::empty()
    } else if lexeme.last() == '.' {
        literal_digits(lexeme.drop_last())
    } else {
        literal_digits(lexeme.drop_last()).push(digit_of(lexeme.last()))
    }
}

/// The number of dots in a number literal.
pub open spec fn dots(lexeme: Seq<char>) -> nat
    decreases lexeme.len(),
{
    if lexeme.len() == 0 {
        0
    } else if lexeme.last() == '.' {
        dots(lexeme.drop_last()) + 1
    } else {
        dots(lexeme.drop_last())
    }
}

/// The number of digits behind the last dot of a number literal; zero if
/// it has no dot.
pub open spec fn fraction_len(lexeme: Seq<char>) -> nat
    decreases lexeme.len(),
{
    if lexeme.len() == 0 {
        0
    } else if lexeme.last() == '.' {
        0
    } else if dots(lexeme.drop_last()) > 0 {
        fraction_len(lexeme.drop_last()) + 1
    } else {
        0
    }
}

/// Whether every character of `lexeme` is a digit or a dot.
pub open spec fn digits_and_dots(lexeme: Seq<char>) -> bool {
    forall|i: int| 0 <= i < lexeme.len() ==> is_digit(#[trigger] lexeme[i]) || lexeme[i] == '.'
}

/// Whether `lexeme` is a number: digits with at most one dot among them.
pub open spec fn is_number(lexeme: Seq<char>) -> bool {
    &&& digits_and_dots(lexeme)
    &&& dots(lexeme) <= 1
    &&& literal_digits(lexeme).len() > 0
}

/// The value of a number literal: the binary64 number nearest to the
/// decimal number it spells. A lexeme that is no number has the value zero.
pub open spec fn literal_value(lexeme: Seq<char>) -> u64 {
    if is_number(lexeme) {
        nearest_ratio(digits_value(literal_digits(lexeme)), pow10(fraction_len(lexeme)))
    } else {
        0
    }
}

/// The value of the decimal digit `c`.
fn digit_value(c: char) -> (digit: u8)
    requires
        is_digit(c),
    ensures
        digit == digit_of(c),
        digit <= 9,
{
    (c as u32 - '0' as u32) as u8
}

/// The value of the number literal `lexeme`.
pub fn parse_literal(lexeme: &Vec<char>) -> (bits: u64)
    ensures
        bits == literal_value(lexeme@),
{
    let mut digits: Vec<u8> = Vec::new();
    let mut dot_count: usize = 0;
    let mut fraction: usize = 0;
    let mut i: usize = 0;
    while i < lexeme.len()
        invariant
            i <= lexeme.len(),
            digits_and_dots(lexeme@.subrange(0, i as int)),
            digits@ == literal_digits(lexeme@.subrange(0, i as int)),
            dot_count == dots(lexeme@.subrange(0, i as int)),
            fraction == fraction_len(lexeme@.subrange(0, i as int)),
            dot_count <= i,
            fraction <= i,
            forall|k: int| 0 <= k < digits@.len() ==> digits@[k] <= 9,
        decreases lexeme.len() - i,
    {
        let c = lexeme[i];
        let ghost before = lexeme@.subrange(0, i as int);
        let ghost now = lexeme@.subrange(0, i + 1);
        proof {
            assert(now.drop_last() =~= before);
            assert(now.last() == c);
        }
        if c == '.' {
            dot_count += 1;
            fraction = 0;
        } else if c >= '0' && c <= '9' {
            digits.push(digit_value(c));
            if dot_count > 0 {
                fraction += 1;
            }
        } else {
            proof {
                assert(!digits_and_dots(lexeme@)) by {
                    if digits_and_dots(lexeme@) {
                        assert(is_digit(lexeme@[i as int]) || lexeme@[i as int] == '.');
                    }
                }
            }
            return 0;
        }
        proof {
            assert forall|k: int| 0 <= k < now.len() implies is_digit(#[trigger] now[k]) || now[k]
                == '.' by {
                if k < i {
                    assert(before[k] == now[k]);
                }
            }
        }
        i += 1;
    }
    proof {
        assert(lexeme@.subrange(0, i as int) =~= lexeme@);
    }
    if dot_count > 1 || digits.len() == 0 {
        return 0;
    }
    let numerator = digits_to_bits(&digits);
    let denominator = power_of_ten(fraction);
    proof {
        lemma_pow10_pos(fraction as nat);
    }
    ratio_to_binary64(&numerator, &denominator)
}

} // verus!
