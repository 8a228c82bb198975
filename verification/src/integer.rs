use vstd::prelude::*;

use crate::text::chars_of;

verus! {

/// Why a decimal integer could not be read; the cases of `std::num::IntErrorKind`
/// that decimal parsing produces.
#[derive(Debug, Clone, Copy, PartialEq, Eq, Structural)]
pub enum IntErrorKind {
    Empty,
    InvalidDigit,
    PosOverflow,
    NegOverflow,
}

/// Whether `c` is one of the ASCII digits `0` to `9`.
pub open spec fn is_digit(c: char) -> bool {
    '0' <= c && c <= '9'
}

/// The value of the ASCII digit `c`.
pub open spec fn digit_value(c: char) -> int {
    c as int - '0' as int
}

/// The magnitude of the digit string `d`, read left to right: the first
/// character that is no digit gives `InvalidDigit`, the first digit that takes
/// the value past `limit` gives `overflow`.
pub open spec fn magnitude(d: Seq<char>, limit: int, overflow: IntErrorKind) -> Result<int, IntErrorKind>
    decreases d.len(),
{
    if d.len() == 0 {
        Ok(0)
    } else {
        match magnitude(d.drop_last(), limit, overflow) {
            Err(e) => Err(e),
            Ok(v) => if !is_digit(d.last()) {
                Err(IntErrorKind::InvalidDigit)
            } else if v * 10 + digit_value(d.last()) > limit {
                Err(overflow)
            } else {
                Ok(v * 10 + digit_value(d.last()))
            },
        }
    }
}

/// The value of `s` read as an unsigned decimal integer no larger than `max`:
/// an optional `+` and then digits.
pub open spec fn unsigned_value(s: Seq<char>, max: int) -> Result<int, IntErrorKind> {
    if s.len() == 0 {
        Err(IntErrorKind::Empty)
    } else if (s[0] == '+' || s[0] == '-') && s.len() == 1 {
        Err(IntErrorKind::InvalidDigit)
    } else if s[0] == '+' {
        magnitude(s.drop_first(), max, IntErrorKind::PosOverflow)
    } else {
        magnitude(s, max, IntErrorKind::PosOverflow)
    }
}

/// The value of `s` read as a signed decimal `i64`: an optional sign and then digits.
pub open spec fn signed_value(s: Seq<char>) -> Result<int, IntErrorKind> {
    if s.len() == 0 {
        Err(IntErrorKind::Empty)
    } else if (s[0] == '+' || s[0] == '-') && s.len() == 1 {
        Err(IntErrorKind::InvalidDigit)
    } else if s[0] == '-' {
        match magnitude(s.drop_first(), 0x8000_0000_0000_0000, IntErrorKind::NegOverflow) {
            Ok(m) => Ok(-m),
            Err(e) => Err(e),
        }
    } else if s[0] == '+' {
        magnitude(s.drop_first(), i64::MAX as int, IntErrorKind::PosOverflow)
    } else {
        magnitude(s, i64::MAX as int, IntErrorKind::PosOverflow)
    }
}

/// The integer types that a spin option's field can have.
#[derive(Debug, Clone, Copy, PartialEq, Eq, Structural)]
pub enum IntType {
    I8,
    I16,
    I32,
    I64,
    Isize,
    U8,
    U16,
    U32,
    U64,
    Usize,
}

/// The least value of the integer type `t`.
pub open spec fn int_min(t: IntType) -> int {
    match t {
        IntType::I8 => i8::MIN as int,
        IntType::I16 => i16::MIN as int,
        IntType::I32 => i32::MIN as int,
        IntType::I64 => i64::MIN as int,
        IntType::Isize => isize::MIN as int,
        _ => 0,
    }
}

/// The greatest value of the integer type `t`.
pub open spec fn int_max(t: IntType) -> int {
    match t {
        IntType::I8 => i8::MAX as int,
        IntType::I16 => i16::MAX as int,
        IntType::I32 => i32::MAX as int,
        IntType::I64 => i64::MAX as int,
        IntType::Isize => isize::MAX as int,
        IntType::U8 => u8::MAX as int,
        IntType::U16 => u16::MAX as int,
        IntType::U32 => u32::MAX as int,
        IntType::U64 => u64::MAX as int,
        IntType::Usize => usize::MAX as int,
    }
}

/// The value of `s` read as a decimal integer of type `t`, as `from_str` of that
/// type reads it: an optional `+`, or a `-` where the type is signed, and then
/// digits. On an unsigned type a `-` is an invalid digit.
pub open spec fn typed_value(s: Seq<char>, t: IntType) -> Result<int, IntErrorKind> {
    if s.len() == 0 {
        Err(IntErrorKind::Empty)
    } else if (s[0] == '+' || s[0] == '-') && s.len() == 1 {
        Err(IntErrorKind::InvalidDigit)
    } else if s[0] == '-' && int_min(t) < 0 {
        match magnitude(s.drop_first(), -int_min(t), IntErrorKind::NegOverflow) {
            Ok(m) => Ok(-m),
            Err(e) => Err(e),
        }
    } else if s[0] == '+' {
        magnitude(s.drop_first(), int_max(t), IntErrorKind::PosOverflow)
    } else {
        magnitude(s, int_max(t), IntErrorKind::PosOverflow)
    }
}

/// The magnitude of the least value of `t` and the greatest value of `t`.
fn int_limits(t: IntType) -> (r: (u64, u64))
    ensures
        r.0 == -int_min(t),
        r.1 == int_max(t),
{
    match t {
        IntType::I8 => (128, 127),
        IntType::I16 => (32768, 32767),
        IntType::I32 => (0x8000_0000, 0x7fff_ffff),
        IntType::I64 => (0x8000_0000_0000_0000, 0x7fff_ffff_ffff_ffff),
        IntType::Isize => ((isize::MAX as u64) + 1, isize::MAX as u64),
        IntType::U8 => (0, 255),
        IntType::U16 => (0, 65535),
        IntType::U32 => (0, 0xffff_ffff),
        IntType::U64 => (0, u64::MAX),
        IntType::Usize => (0, usize::MAX as u64),
    }
}

/// A magnitude that reads without error lies between zero and the limit.
pub proof fn lemma_magnitude_in_range(d: Seq<char>, limit: int, overflow: IntErrorKind)
    requires
        0 <= limit,
    ensures
        magnitude(d, limit, overflow) matches Ok(v) ==> 0 <= v <= limit,
    decreases d.len(),
{
    if d.len() > 0 {
        lemma_magnitude_in_range(d.drop_last(), limit, overflow);
    }
}

/// A value read as an integer of type `t` is a value of `t`.
pub proof fn lemma_typed_value_in_range(s: Seq<char>, t: IntType)
    ensures
        typed_value(s, t) matches Ok(v) ==> int_min(t) <= v <= int_max(t),
{
    if s.len() > 0 {
        lemma_magnitude_in_range(s.drop_first(), -int_min(t), IntErrorKind::NegOverflow);
        lemma_magnitude_in_range(s.drop_first(), int_max(t), IntErrorKind::PosOverflow);
        lemma_magnitude_in_range(s, int_max(t), IntErrorKind::PosOverflow);
    }
}

/// Reads `text` as a decimal integer of type `t`, as `from_str` of that type does.
pub fn parse_typed(text: &str, t: IntType) -> (r: Result<i128, IntErrorKind>)
    ensures
        match r {
            Ok(v) => typed_value(text@, t) == Ok::<int, IntErrorKind>(v as int),
            Err(e) => typed_value(text@, t) == Err::<int, IntErrorKind>(e),
        },
{
    let (negative_limit, max) = int_limits(t);
    let chars = chars_of(text);
    if chars.len() == 0 {
        return Err(IntErrorKind::Empty);
    }
    if (chars[0] == '+' || chars[0] == '-') && chars.len() == 1 {
        return Err(IntErrorKind::InvalidDigit);
    }
    if chars[0] == '-' && negative_limit > 0 {
        assert(chars@.skip(1) == text@.drop_first());
        match read_magnitude(&chars, 1, negative_limit, IntErrorKind::NegOverflow) {
            Ok(m) => Ok(0i128 - m as i128),
            Err(e) => Err(e),
        }
    } else {
        let start: usize = if chars[0] == '+' { 1 } else { 0 };
        assert(chars[0] == '+' ==> chars@.skip(1) == text@.drop_first());
        assert(chars@.skip(0) == text@);
        match read_magnitude(&chars, start, max, IntErrorKind::PosOverflow) {
            Ok(m) => Ok(m as i128),
            Err(e) => Err(e),
        }
    }
}

/// An error in a prefix of the digits is the error of the whole string.
pub proof fn lemma_magnitude_error_persists(d: Seq<char>, n: int, limit: int, overflow: IntErrorKind)
    requires
        0 <= n <= d.len(),
        magnitude(d.take(n), limit, overflow) is Err,
    ensures
        magnitude(d, limit, overflow) == magnitude(d.take(n), limit, overflow),
    decreases d.len() - n,
{
    if n < d.len() {
        assert(d.take(n + 1).drop_last() == d.take(n));
        lemma_magnitude_error_persists(d, n + 1, limit, overflow);
    } else {
        assert(d.take(n) == d);
    }
}

/// Reads the digits `chars[start..]` into a magnitude no larger than `limit`.
fn read_magnitude(chars: &Vec<char>, start: usize, limit: u64, overflow: IntErrorKind) -> (r: Result<u64, IntErrorKind>)
    requires
        start <= chars.len(),
    ensures
        match r {
            Ok(v) => magnitude(chars@.skip(start as int), limit as int, overflow) == Ok::<int, IntErrorKind>(v as int),
            Err(e) => magnitude(chars@.skip(start as int), limit as int, overflow) == Err::<int, IntErrorKind>(e),
        },
{
    let ghost d = chars@.skip(start as int);
    let mut v: u64 = 0;
    let mut i = start;
    assert(d.take(0) == Seq::<char>::empty());
    while i < chars.len()
        invariant
            start <= i <= chars.len(),
            d == chars@.skip(start as int),
            v <= limit,
            magnitude(d.take(i - start), limit as int, overflow) == Ok::<int, IntErrorKind>(v as int),
        decreases chars.len() - i,
    {
        let c = chars[i];
        let ghost k = i - start;
        assert(d.take(k + 1).drop_last() == d.take(k));
        assert(d.take(k + 1).last() == c);
        if !('0' <= c && c <= '9') {
            proof { lemma_magnitude_error_persists(d, k + 1, limit as int, overflow); }
            return Err(IntErrorKind::InvalidDigit);
        }
        let digit = (c as u32 - '0' as u32) as u64;
        if (v as u128) * 10 + (digit as u128) > limit as u128 {
            proof { lemma_magnitude_error_persists(d, k + 1, limit as int, overflow); }
            return Err(overflow);
        }
        v = v * 10 + digit;
        i += 1;
    }
    assert(d.take(i - start) == d);
    Ok(v)
}

/// Reads `text` as an unsigned decimal integer no larger than `max`, as
/// `u64::from_str` does for `max == u64::MAX` and `u32::from_str` for `max == u32::MAX`.
pub fn parse_unsigned(text: &str, max: u64) -> (r: Result<u64, IntErrorKind>)
    ensures
        match r {
            Ok(v) => unsigned_value(text@, max as int) == Ok::<int, IntErrorKind>(v as int),
            Err(e) => unsigned_value(text@, max as int) == Err::<int, IntErrorKind>(e),
        },
{
    let chars = chars_of(text);
    if chars.len() == 0 {
        return Err(IntErrorKind::Empty);
    }
    if (chars[0] == '+' || chars[0] == '-') && chars.len() == 1 {
        return Err(IntErrorKind::InvalidDigit);
    }
    if chars[0] == '+' {
        assert(chars@.skip(1) == text@.drop_first());
        read_magnitude(&chars, 1, max, IntErrorKind::PosOverflow)
    } else {
        assert(chars@.skip(0) == text@);
        read_magnitude(&chars, 0, max, IntErrorKind::PosOverflow)
    }
}

/// Reads `text` as a signed decimal `i64`, as `i64::from_str` does.
pub fn parse_signed(text: &str) -> (r: Result<i64, IntErrorKind>)
    ensures
        match r {
            Ok(v) => signed_value(text@) == Ok::<int, IntErrorKind>(v as int),
            Err(e) => signed_value(text@) == Err::<int, IntErrorKind>(e),
        },
{
    let chars = chars_of(text);
    if chars.len() == 0 {
        return Err(IntErrorKind::Empty);
    }
    if (chars[0] == '+' || chars[0] == '-') && chars.len() == 1 {
        return Err(IntErrorKind::InvalidDigit);
    }
    if chars[0] == '-' {
        assert(chars@.skip(1) == text@.drop_first());
        match read_magnitude(&chars, 1, 0x8000_0000_0000_0000, IntErrorKind::NegOverflow) {
            Ok(m) => {
                if m == 0x8000_0000_0000_0000 {
                    Ok(i64::MIN)
                } else {
                    Ok(-(m as i64))
                }
            },
            Err(e) => Err(e),
        }
    } else {
        let start: usize = if chars[0] == '+' { 1 } else { 0 };
        assert(chars[0] == '+' ==> chars@.skip(1) == text@.drop_first());
        assert(chars@.skip(0) == text@);
        match read_magnitude(&chars, start, i64::MAX as u64, IntErrorKind::PosOverflow) {
            Ok(m) => Ok(m as i64),
            Err(e) => Err(e),
        }
    }
}

} // verus!
