//! Decimal text of unsigned integers: rendering and parsing, with the error
//! kinds that `str::parse` reports for unsigned integer types.

use vstd::prelude::*;

use crate::text::push_char;

verus! {

/// Why a decimal number could not be read (the kinds of `IntErrorKind`
/// that an unsigned parse can report).
#[derive(Debug, Clone, Copy, PartialEq, Eq, Structural)]
pub enum IntErrorKind {
    /// The text was empty.
    Empty,
    /// The text held a character that is not a decimal digit.
    InvalidDigit,
    /// The value does not fit in the target type.
    PosOverflow,
}

pub open spec fn is_digit(c: char) -> bool {
    '0' <= c && c <= '9'
}

pub open spec fn digit_value(c: char) -> nat {
    (c as u32 - '0' as u32) as nat
}

pub open spec fn digit_char(d: nat) -> char
    recommends
        d < 10,
{
    ((d + '0' as u32) as u32) as char
}

/// The decimal rendering of `n`, without sign or leading zeros.
pub open spec fn dec(n: nat) -> Seq<char>
    decreases n,
{
    if n < 10 {
        seq![digit_char(n)]
    } else {
        dec(n / 10).push(digit_char(n % 10))
    }
}

/// Reads the digits of `s` from left to right into a value no larger than
/// `max`; the first character that is not a digit, or the first digit that
/// takes the value past `max`, decides the error.
pub open spec fn scan_digits(s: Seq<char>, max: nat) -> Result<nat, IntErrorKind>
    decreases s.len(),
{
    if s.len() == 0 {
        Ok(0)
    } else {
        match scan_digits(s.drop_last(), max) {
            Err(e) => Err(e),
            Ok(v) => if !is_digit(s.last()) {
                Err(IntErrorKind::InvalidDigit)
            } else if v * 10 + digit_value(s.last()) > max {
                Err(IntErrorKind::PosOverflow)
            } else {
                Ok(v * 10 + digit_value(s.last()))
            },
        }
    }
}

/// What `str::parse` gives for an unsigned integer type whose largest value
/// is `max`: an optional leading `+`, then one or more decimal digits.
pub open spec fn parse_unsigned(s: Seq<char>, max: nat) -> Result<nat, IntErrorKind> {
    if s.len() == 0 {
        Err(IntErrorKind::Empty)
    } else if s.len() == 1 && (s[0] == '+' || s[0] == '-') {
        Err(IntErrorKind::InvalidDigit)
    } else if s[0] == '+' {
        scan_digits(s.drop_first(), max)
    } else {
        scan_digits(s, max)
    }
}


/// The character of the decimal digit `d`.
pub fn digit_to_char(d: u8) -> (c: char)
    requires
        d < 10,
    ensures
        c == digit_char(d as nat),
        is_digit(c),
        digit_value(c) == d,
{
    ((d + 48u8) as char)
}

/// Appends the decimal rendering of `n` to `out`.
pub fn push_decimal(out: &mut String, n: u128)
    ensures
        final(out)@ == old(out)@ + dec(n as nat),
    decreases n,
{
    if n >= 10 {
        push_decimal(out, n / 10);
    }
    let d: u8 = (n % 10) as u8;
    push_char(out, digit_to_char(d));
    proof {
        if n >= 10 {
            assert(dec(n as nat) == dec((n / 10) as nat).push(digit_char((n % 10) as nat)));
        }
    }
}

/// Reads `chars[lo..hi]` as an unsigned decimal number no larger than
/// `max`, as `str::parse` does for an unsigned integer type with that
/// largest value.
pub fn parse_unsigned_range(chars: &Vec<char>, lo: usize, hi: usize, max: u128) -> (r: Result<
    u128,
    IntErrorKind,
>)
    requires
        lo <= hi <= chars@.len(),
    ensures
        match r {
            Ok(v) => parse_unsigned(chars@.subrange(lo as int, hi as int), max as nat) == Ok::<
                nat,
                IntErrorKind,
            >(v as nat),
            Err(e) => parse_unsigned(chars@.subrange(lo as int, hi as int), max as nat) == Err::<
                nat,
                IntErrorKind,
            >(e),
        },
{
    let ghost s = chars@.subrange(lo as int, hi as int);
    if lo == hi {
        return Err(IntErrorKind::Empty);
    }
    if hi - lo == 1 && (chars[lo] == '+' || chars[lo] == '-') {
        return Err(IntErrorKind::InvalidDigit);
    }
    let mut start = lo;
    if chars[lo] == '+' {
        start = lo + 1;
        assert(s.drop_first() =~= chars@.subrange(start as int, hi as int));
    } else {
        assert(s =~= chars@.subrange(start as int, hi as int));
    }
    let ghost digits = chars@.subrange(start as int, hi as int);
    assert(parse_unsigned(s, max as nat) == scan_digits(digits, max as nat));
    let mut acc: u128 = 0;
    let mut i = start;
    assert(digits.subrange(0, 0) =~= Seq::<char>::empty());
    while i < hi
        invariant
            start <= i <= hi <= chars@.len(),
            digits == chars@.subrange(start as int, hi as int),
            parse_unsigned(chars@.subrange(lo as int, hi as int), max as nat) == scan_digits(
                digits,
                max as nat,
            ),
            scan_digits(digits.subrange(0, i - start), max as nat) == Ok::<nat, IntErrorKind>(
                acc as nat,
            ),
        decreases hi - i,
    {
        let c = chars[i];
        let ghost pre = digits.subrange(0, i - start);
        let ghost next = digits.subrange(0, i + 1 - start);
        assert(next.drop_last() =~= pre);
        assert(next.last() == c);
        if !('0' <= c && c <= '9') {
            assert(scan_digits(next, max as nat) == Err::<nat, IntErrorKind>(
                IntErrorKind::InvalidDigit,
            ));
            proof { lemma_scan_error_persists(digits, (i + 1 - start) as nat, max as nat); }
            return Err(IntErrorKind::InvalidDigit);
        }
        let d: u128 = ((c as u32) - 48u32) as u128;
        let grown = match acc.checked_mul(10) {
            Some(m) => m.checked_add(d),
            None => None,
        };
        match grown {
            Some(v) if v <= max => {
                acc = v;
            },
            _ => {
                assert(scan_digits(next, max as nat) == Err::<nat, IntErrorKind>(
                    IntErrorKind::PosOverflow,
                ));
                proof { lemma_scan_error_persists(digits, (i + 1 - start) as nat, max as nat); }
                return Err(IntErrorKind::PosOverflow);
            },
        }
        i = i + 1;
    }
    assert(digits.subrange(0, hi - start) =~= digits);
    Ok(acc)
}

/// Once a prefix of the digits fails to scan, every longer prefix fails in
/// the same way.
pub proof fn lemma_scan_error_persists(s: Seq<char>, k: nat, max: nat)
    requires
        k <= s.len(),
        scan_digits(s.subrange(0, k as int), max) is Err,
    ensures
        scan_digits(s, max) == scan_digits(s.subrange(0, k as int), max),
    decreases s.len() - k,
{
    if k < s.len() {
        let next = s.subrange(0, k + 1 as int);
        assert(next.drop_last() =~= s.subrange(0, k as int));
        lemma_scan_error_persists(s, k + 1, max);
    } else {
        assert(s.subrange(0, k as int) =~= s);
    }
}

/// A digit character reads back as its digit.
pub proof fn lemma_digit_char(d: nat)
    requires
        d < 10,
    ensures
        is_digit(digit_char(d)),
        digit_value(digit_char(d)) == d,
{
    let c = digit_char(d);
    assert(c as u32 == d + 48);
}

/// The rendering of a number is a non-empty run of digits.
pub proof fn lemma_dec_digits(n: nat)
    ensures
        dec(n).len() >= 1,
        forall|i: int| 0 <= i < dec(n).len() ==> is_digit(#[trigger] dec(n)[i]),
    decreases n,
{
    if n >= 10 {
        lemma_dec_digits(n / 10);
    }
}

/// Reading back a rendered number gives the number, whenever it fits.
pub proof fn lemma_parse_dec(n: nat, max: nat)
    requires
        n <= max,
    ensures
        scan_digits(dec(n), max) == Ok::<nat, IntErrorKind>(n),
        parse_unsigned(dec(n), max) == Ok::<nat, IntErrorKind>(n),
    decreases n,
{
    lemma_dec_digits(n);
    lemma_digit_char(n % 10);
    let s = dec(n);
    if n >= 10 {
        lemma_parse_dec(n / 10, max);
        assert(s.drop_last() =~= dec(n / 10));
        assert(s.last() == digit_char(n % 10));
        assert((n / 10) * 10 + n % 10 == n);
        assert(scan_digits(s.drop_last(), max) == Ok::<nat, IntErrorKind>(n / 10));
    } else {
        assert(s.drop_last() =~= Seq::<char>::empty());
        assert(n % 10 == n);
        assert(s.last() == digit_char(n));
        assert(scan_digits(s.drop_last(), max) == Ok::<nat, IntErrorKind>(0));
    }
    assert(digit_value(s.last()) == n % 10);
    assert(scan_digits(s, max) == Ok::<nat, IntErrorKind>(n));
    assert(is_digit(dec(n)[0]));
}

} // verus!
