//! Decimal and hexadecimal numerals as ASCII bytes.

use vstd::prelude::*;
use vstd::slice::slice_subrange;

verus! {

/// ASCII `'0'`.
pub const ZERO: u8 = 0x30;

/// ASCII `'+'`.
pub const PLUS: u8 = 0x2b;

/// ASCII `'a'`.
pub const LOWER_A: u8 = 0x61;

/// ASCII `'A'`.
pub const UPPER_A: u8 = 0x41;

/// Whether `b` is one of `'0'..='9'`.
pub open spec fn is_digit(b: u8) -> bool {
    ZERO <= b <= ZERO + 9
}

/// The ASCII digit for `d`, where `0 <= d < 10`.
pub open spec fn digit_byte(d: nat) -> u8
    recommends
        d < 10,
{
    (ZERO + d) as u8
}

/// The shortest decimal numeral of `n`: no sign, no leading zero but for `0` itself.
pub open spec fn decimal(n: nat) -> Seq<u8>
    decreases n,
{
    if n < 10 {
        seq![digit_byte(n)]
    } else {
        decimal(n / 10).push(digit_byte(n % 10))
    }
}

/// The number that a string of decimal digits denotes, read most significant digit first.
pub open spec fn digits_value(s: Seq<u8>) -> nat
    decreases s.len(),
{
    if s.len() == 0 {
        0
    } else {
        digits_value(s.drop_last()) * 10 + (s.last() - ZERO) as nat
    }
}

/// Whether every byte of `s` is a decimal digit.
pub open spec fn all_digits(s: Seq<u8>) -> bool {
    forall|i: int| 0 <= i < s.len() ==> is_digit(#[trigger] s[i])
}

/// The value of a string of one or more digits, if it fits in 32 bits.
/// Leading zeros are allowed.
pub open spec fn digits_u32(s: Seq<u8>) -> Option<u32> {
    if s.len() > 0 && all_digits(s) && digits_value(s) <= u32::MAX {
        Some(digits_value(s) as u32)
    } else {
        None
    }
}

/// A numeral without the one plus sign that may stand in front of it.
pub open spec fn without_plus(s: Seq<u8>) -> Seq<u8> {
    if s.len() > 0 && s[0] == PLUS {
        s.skip(1)
    } else {
        s
    }
}

/// The value of a decimal numeral that fits in 32 bits: an optional plus
/// sign, then one or more digits, and nothing else. Leading zeros are
/// allowed; a minus sign is not, nor a sign without digits.
pub open spec fn decimal_value(s: Seq<u8>) -> Option<u32> {
    digits_u32(without_plus(s))
}

/// The lowercase hexadecimal digit for `d`, where `0 <= d < 16`.
pub open spec fn hex_digit_byte(d: nat) -> u8
    recommends
        d < 16,
{
    if d < 10 {
        (ZERO + d) as u8
    } else {
        (LOWER_A + d - 10) as u8
    }
}

/// The two lowercase hexadecimal digits of a byte, high nibble first.
pub open spec fn hex_pair(b: u8) -> Seq<u8> {
    seq![hex_digit_byte((b / 16) as nat), hex_digit_byte((b % 16) as nat)]
}

/// The value of a hexadecimal digit of either case, if `b` is one.
pub open spec fn hex_digit_value(b: u8) -> Option<u8> {
    if ZERO <= b <= ZERO + 9 {
        Some((b - ZERO) as u8)
    } else if LOWER_A <= b <= LOWER_A + 5 {
        Some((b - LOWER_A + 10) as u8)
    } else if UPPER_A <= b <= UPPER_A + 5 {
        Some((b - UPPER_A + 10) as u8)
    } else {
        None
    }
}

/// Whether `b` is a hexadecimal digit of either case.
pub open spec fn is_hex_digit(b: u8) -> bool {
    hex_digit_value(b) is Some
}

/// Whether every byte of `s` is a hexadecimal digit.
pub open spec fn all_hex_digits(s: Seq<u8>) -> bool {
    forall|i: int| 0 <= i < s.len() ==> is_hex_digit(#[trigger] s[i])
}

/// The byte that two hexadecimal digits denote, high nibble first.
pub open spec fn hex_pair_value(hi: u8, lo: u8) -> u8
    recommends
        is_hex_digit(hi),
        is_hex_digit(lo),
{
    (hex_digit_value(hi)->Some_0 * 16 + hex_digit_value(lo)->Some_0) as u8
}

/// Appends the decimal numeral of `n` to `out`.
pub fn push_decimal(out: &mut Vec<u8>, n: u32)
    ensures
        final(out)@ == old(out)@ + decimal(n as nat),
    decreases n,
{
    if n >= 10 {
        push_decimal(out, n / 10);
    }
    let d: u8 = (n % 10) as u8;
    out.push(ZERO + d);
    proof {
        if n >= 10 {
            assert(out@ =~= old(out)@ + decimal((n / 10) as nat).push(
                digit_byte((n % 10) as nat),
            ));
        } else {
            assert(out@ =~= old(out)@ + seq![digit_byte(n as nat)]);
        }
    }
}

/// The lowercase hexadecimal digit for a nibble.
fn hex_digit(d: u8) -> (res: u8)
    requires
        d < 16,
    ensures
        res == hex_digit_byte(d as nat),
{
    if d < 10 {
        ZERO + d
    } else {
        LOWER_A + (d - 10)
    }
}

/// Appends the two lowercase hexadecimal digits of `b` to `out`.
pub fn push_hex_pair(out: &mut Vec<u8>, b: u8)
    ensures
        final(out)@ == old(out)@ + hex_pair(b),
{
    out.push(hex_digit(b / 16));
    out.push(hex_digit(b % 16));
    proof {
        assert(out@ =~= old(out)@ + hex_pair(b));
    }
}

/// A prefix of a digit string denotes no more than the whole string.
pub proof fn lemma_digits_value_prefix(s: Seq<u8>, k: int)
    requires
        0 <= k <= s.len(),
    ensures
        digits_value(s.take(k)) <= digits_value(s),
    decreases s.len(),
{
    if k == s.len() {
        assert(s.take(k) =~= s);
    } else {
        lemma_digits_value_prefix(s.drop_last(), k);
        assert(s.drop_last().take(k) =~= s.take(k));
    }
}

/// Reads a decimal numeral that fits in 32 bits, with or without a plus
/// sign in front.
pub fn parse_decimal(s: &[u8]) -> (res: Option<u32>)
    ensures
        res == decimal_value(s@),
{
    if s.len() > 0 && s[0] == PLUS {
        parse_digits(slice_subrange(s, 1, s.len()))
    } else {
        parse_digits(s)
    }
}

/// Reads a string of digits that denotes a number of 32 bits.
pub fn parse_digits(s: &[u8]) -> (res: Option<u32>)
    ensures
        res == digits_u32(s@),
{
    if s.len() == 0 {
        return None;
    }
    let mut acc: u64 = 0;
    let mut i: usize = 0;
    while i < s.len()
        invariant
            i <= s.len(),
            all_digits(s@.take(i as int)),
            acc == digits_value(s@.take(i as int)),
            acc <= u32::MAX,
        decreases s.len() - i,
    {
        let b: u8 = s[i];
        if b < ZERO || b > ZERO + 9 {
            assert(!is_digit(s@[i as int]));
            return None;
        }
        let next: u64 = acc * 10 + (b - ZERO) as u64;
        proof {
            let longer = s@.take(i as int + 1);
            assert(longer.drop_last() =~= s@.take(i as int));
            assert(longer.last() == b);
            assert(next == digits_value(longer));
            assert forall|j: int| 0 <= j < longer.len() implies is_digit(#[trigger] longer[j]) by {
                if j < i {
                    assert(longer[j] == s@.take(i as int)[j]);
                }
            }
        }
        if next > u32::MAX as u64 {
            proof {
                lemma_digits_value_prefix(s@, i as int + 1);
            }
            return None;
        }
        acc = next;
        i = i + 1;
    }
    proof {
        assert(s@.take(i as int) =~= s@);
    }
    Some(acc as u32)
}

/// Reads one hexadecimal digit of either case.
pub fn parse_hex_digit(b: u8) -> (res: Option<u8>)
    ensures
        res == hex_digit_value(b),
{
    if ZERO <= b && b <= ZERO + 9 {
        Some(b - ZERO)
    } else if LOWER_A <= b && b <= LOWER_A + 5 {
        Some(b - LOWER_A + 10)
    } else if UPPER_A <= b && b <= UPPER_A + 5 {
        Some(b - UPPER_A + 10)
    } else {
        None
    }
}

/// Whether every byte of `s` is a hexadecimal digit.
pub fn is_hex_string(s: &[u8]) -> (res: bool)
    ensures
        res == all_hex_digits(s@),
{
    let mut i: usize = 0;
    while i < s.len()
        invariant
            i <= s.len(),
            forall|j: int| 0 <= j < i ==> is_hex_digit(#[trigger] s@[j]),
        decreases s.len() - i,
    {
        if parse_hex_digit(s[i]).is_none() {
            assert(!is_hex_digit(s@[i as int]));
            return false;
        }
        i = i + 1;
    }
    true
}

/// Reads the byte that two hexadecimal digits denote, high nibble first.
pub fn parse_hex_pair(hi: u8, lo: u8) -> (res: Option<u8>)
    ensures
        res is Some <==> is_hex_digit(hi) && is_hex_digit(lo),
        res matches Some(v) ==> v == hex_pair_value(hi, lo),
{
    match (parse_hex_digit(hi), parse_hex_digit(lo)) {
        (Some(h), Some(l)) => Some(h * 16 + l),
        _ => None,
    }
}

/// The decimal numeral of `n` is a non-empty string of digits that denotes `n`.
pub proof fn lemma_decimal_round_trip(n: nat)
    ensures
        decimal(n).len() > 0,
        all_digits(decimal(n)),
        digits_value(decimal(n)) == n,
    decreases n,
{
    if n < 10 {
        let s = decimal(n);
        assert(s.drop_last() =~= Seq::<u8>::empty());
        assert(digits_value(s.drop_last()) == 0);
    } else {
        lemma_decimal_round_trip(n / 10);
        let s = decimal(n);
        assert(s.drop_last() =~= decimal(n / 10));
    }
}

/// Reading back the decimal numeral of a 32-bit number gives that number.
pub proof fn lemma_decimal_value_of_decimal(n: u32)
    ensures
        decimal_value(decimal(n as nat)) == Some(n),
{
    lemma_decimal_round_trip(n as nat);
    assert(is_digit(decimal(n as nat)[0]));
}

/// The two digits written for a byte are hexadecimal digits that denote it.
pub proof fn lemma_hex_pair_round_trip(b: u8)
    ensures
        hex_pair(b).len() == 2,
        is_hex_digit(hex_pair(b)[0]),
        is_hex_digit(hex_pair(b)[1]),
        hex_pair_value(hex_pair(b)[0], hex_pair(b)[1]) == b,
{
}

} // verus!
