use vstd::prelude::*;

use crate::integer::{
    digit_value, int_max, int_min, is_digit, lemma_magnitude_error_persists, magnitude, signed_value,
    typed_value, unsigned_value, IntErrorKind, IntType,
};
use crate::text::push_char;

verus! {

/// The ASCII digit for `d`, which lies in `0..10`.
pub open spec fn digit_char(d: int) -> char {
    (d + '0' as int) as char
}

/// The decimal digits of `n`, most significant first, without leading zeros.
pub open spec fn digits(n: nat) -> Seq<char>
    decreases n,
{
    if n < 10 {
        seq![digit_char(n as int)]
    } else {
        digits(n / 10).push(digit_char((n % 10) as int))
    }
}

/// `v` written in decimal, as `Display` writes an integer.
pub open spec fn decimal(v: int) -> Seq<char> {
    if v < 0 {
        seq!['-'] + digits((-v) as nat)
    } else {
        digits(v as nat)
    }
}

/// `b` as `Display` writes it.
pub open spec fn bool_text(b: bool) -> Seq<char> {
    if b {
        "true"@
    } else {
        "false"@
    }
}

/// Appends the decimal digits of `n`.
pub fn push_digits(out: &mut String, n: u64)
    ensures
        final(out)@ == old(out)@ + digits(n as nat),
    decreases n,
{
    if n >= 10 {
        push_digits(out, n / 10);
    }
    let d = (n % 10) as u8;
    let c = (48u8 + d) as char;
    assert(c == digit_char((n % 10) as int));
    push_char(out, c);
    assert(digits(n as nat) == (if n >= 10 { digits((n / 10) as nat) } else { Seq::<char>::empty() }).push(c));
}

/// Appends `v` in decimal.
pub fn push_decimal(out: &mut String, v: i64)
    ensures
        final(out)@ == old(out)@ + decimal(v as int),
{
    if v < 0 {
        push_char(out, '-');
        let m: u64 = (0i128 - (v as i128)) as u64;
        push_digits(out, m);
        assert(old(out)@.push('-') + digits(m as nat) == old(out)@ + (seq!['-'] + digits(m as nat)));
    } else {
        push_digits(out, v as u64);
    }
}

/// Appends `b` as `true` or `false`.
pub fn push_bool(out: &mut String, b: bool)
    ensures
        final(out)@ == old(out)@ + bool_text(b),
{
    if b {
        out.append("true");
    } else {
        out.append("false");
    }
}

/// The digits of `n` are ASCII digits, at least one.
pub proof fn lemma_digits_are_digits(n: nat)
    ensures
        digits(n).len() >= 1,
        forall|i: int| 0 <= i < digits(n).len() ==> is_digit(#[trigger] digits(n)[i]),
    decreases n,
{
    if n >= 10 {
        lemma_digits_are_digits(n / 10);
        assert forall|i: int| 0 <= i < digits(n).len() implies is_digit(#[trigger] digits(n)[i]) by {
            if i < digits(n / 10).len() {
                assert(digits(n)[i] == digits(n / 10)[i]);
            }
        }
    }
}

/// Reading the digits of `n` gives back `n` when it does not exceed `limit`.
pub proof fn lemma_magnitude_of_digits(n: nat, limit: int, overflow: IntErrorKind)
    requires
        n <= limit,
    ensures
        magnitude(digits(n), limit, overflow) == Ok::<int, IntErrorKind>(n as int),
    decreases n,
{
    if n >= 10 {
        lemma_magnitude_of_digits(n / 10, limit, overflow);
        assert(digits(n).drop_last() == digits(n / 10));
        assert(digits(n).last() == digit_char((n % 10) as int));
        assert(digit_value(digit_char((n % 10) as int)) == n % 10);
        assert(is_digit(digit_char((n % 10) as int)));
        assert((n / 10) * 10 + n % 10 == n);
    } else {
        assert(digits(n).drop_last() == Seq::<char>::empty());
        assert(magnitude(Seq::<char>::empty(), limit, overflow) == Ok::<int, IntErrorKind>(0));
        assert(digits(n).last() == digit_char(n as int));
        assert(digit_value(digit_char(n as int)) == n);
        assert(is_digit(digit_char(n as int)));
    }
}

/// An unsigned number written in decimal reads back as itself.
pub proof fn lemma_unsigned_round_trip(n: nat, max: int)
    requires
        n <= max,
    ensures
        unsigned_value(digits(n), max) == Ok::<int, IntErrorKind>(n as int),
{
    lemma_digits_are_digits(n);
    assert(is_digit(digits(n)[0]));
    lemma_magnitude_of_digits(n, max, IntErrorKind::PosOverflow);
}

/// Every `i64` written in decimal, as an option's default is announced, reads
/// back as itself.
pub proof fn lemma_decimal_round_trip(v: int)
    requires
        i64::MIN <= v <= i64::MAX,
    ensures
        signed_value(decimal(v)) == Ok::<int, IntErrorKind>(v),
{
    if v < 0 {
        let m = (-v) as nat;
        lemma_digits_are_digits(m);
        lemma_magnitude_of_digits(m, 0x8000_0000_0000_0000, IntErrorKind::NegOverflow);
        assert(decimal(v).drop_first() == digits(m));
    } else {
        lemma_digits_are_digits(v as nat);
        assert(is_digit(digits(v as nat)[0]));
        lemma_magnitude_of_digits(v as nat, i64::MAX as int, IntErrorKind::PosOverflow);
    }
}

/// Reading the digits of `n` overflows when `n` exceeds `limit`.
pub proof fn lemma_magnitude_of_large_digits(n: nat, limit: int, overflow: IntErrorKind)
    requires
        0 <= limit < n,
    ensures
        magnitude(digits(n), limit, overflow) == Err::<int, IntErrorKind>(overflow),
    decreases n,
{
    assert(digits(n).last() == digit_char((n % 10) as int));
    assert(digit_value(digit_char((n % 10) as int)) == n % 10);
    assert(is_digit(digit_char((n % 10) as int)));
    if n >= 10 {
        assert(digits(n).drop_last() == digits(n / 10));
        if n / 10 > limit {
            lemma_magnitude_of_large_digits(n / 10, limit, overflow);
        } else {
            lemma_magnitude_of_digits(n / 10, limit, overflow);
            assert((n / 10) * 10 + n % 10 == n);
        }
    } else {
        assert(digits(n).drop_last() == Seq::<char>::empty());
        assert(magnitude(Seq::<char>::empty(), limit, overflow) == Ok::<int, IntErrorKind>(0));
    }
}

/// A number written in decimal reads back, as an integer of type `t`, as itself
/// exactly when it is a value of `t`: above the range it overflows; below it, a
/// signed type overflows the other way and an unsigned type finds the `-` an
/// invalid digit.
pub proof fn lemma_typed_decimal(v: int, t: IntType)
    ensures
        int_min(t) <= v <= int_max(t) ==> typed_value(decimal(v), t) == Ok::<int, IntErrorKind>(v),
        v > int_max(t) ==> typed_value(decimal(v), t) == Err::<int, IntErrorKind>(IntErrorKind::PosOverflow),
        v < int_min(t) && int_min(t) < 0 ==> typed_value(decimal(v), t) == Err::<int, IntErrorKind>(
            IntErrorKind::NegOverflow,
        ),
        v < 0 && int_min(t) == 0 ==> typed_value(decimal(v), t) == Err::<int, IntErrorKind>(
            IntErrorKind::InvalidDigit,
        ),
{
    if v < 0 {
        let m = (-v) as nat;
        lemma_digits_are_digits(m);
        assert(decimal(v).drop_first() == digits(m));
        assert(decimal(v)[0] == '-');
        if int_min(t) < 0 {
            if v >= int_min(t) {
                lemma_magnitude_of_digits(m, -int_min(t), IntErrorKind::NegOverflow);
            } else {
                lemma_magnitude_of_large_digits(m, -int_min(t), IntErrorKind::NegOverflow);
            }
        } else {
            let s = decimal(v);
            assert(s.take(1).drop_last() == Seq::<char>::empty());
            assert(magnitude(Seq::<char>::empty(), int_max(t), IntErrorKind::PosOverflow) == Ok::<int, IntErrorKind>(0));
            assert(s.take(1).last() == '-');
            lemma_magnitude_error_persists(s, 1, int_max(t), IntErrorKind::PosOverflow);
        }
    } else {
        lemma_digits_are_digits(v as nat);
        assert(is_digit(digits(v as nat)[0]));
        if v <= int_max(t) {
            lemma_magnitude_of_digits(v as nat, int_max(t), IntErrorKind::PosOverflow);
        } else {
            lemma_magnitude_of_large_digits(v as nat, int_max(t), IntErrorKind::PosOverflow);
        }
    }
}

} // verus!
