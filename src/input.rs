//! The level that a user asks for on the command line.
use vstd::prelude::*;
use crate::decimal::{
    chars_value, decimal_of, digit_value, digits_value, is_digit, is_digit_char, lemma_decimal_of,
    is_unsigned_literal, literal_digits, parse_unsigned,
};
use crate::level::{MAX_BRIGHTNESS, MIN_BRIGHTNESS};

verus! {

/// Why a requested level was refused.
#[derive(Clone, Copy, Debug, PartialEq, Eq, Structural)]
pub enum InputError {
    /// The text is not a number of the expected form.
    Invalid,
    /// The number is above the highest level.
    TooHigh,
}

/// The level that a raw requested number stands for: 0 is taken as the
/// lowest level (the backlight is never switched fully off), numbers above the
/// highest level are refused, and the rest stand for themselves. Since 0 is
/// taken up, no number is ever too low.
pub open spec fn checked_target(raw: u16) -> Result<u16, InputError> {
    if raw == 0 {
        Ok(MIN_BRIGHTNESS)
    } else if raw > MAX_BRIGHTNESS {
        Err(InputError::TooHigh)
    } else {
        Ok(raw)
    }
}

/// The level that an absolute request denotes. Text that is no unsigned
/// literal is invalid. Of a literal's value, however large, 0 is taken as the
/// lowest level, anything above the highest level is too high, and the rest
/// stands for itself.
pub open spec fn absolute_target(s: Seq<char>) -> Result<u16, InputError> {
    if !is_unsigned_literal(s) {
        Err(InputError::Invalid)
    } else {
        let v = chars_value(literal_digits(s));
        if v == 0 {
            Ok(MIN_BRIGHTNESS)
        } else if v > MAX_BRIGHTNESS {
            Err(InputError::TooHigh)
        } else {
            Ok(v as u16)
        }
    }
}

/// `s` with every `%` at its end removed.
pub open spec fn strip_percent(s: Seq<char>) -> Seq<char>
    decreases s.len(),
{
    if s.len() > 0 && s.last() == '%' {
        strip_percent(s.drop_last())
    } else {
        s
    }
}

/// True of a request for a percentage: text that ends with `%`.
pub open spec fn is_percent_request(s: Seq<char>) -> bool {
    s.len() > 0 && s.last() == '%'
}

/// Bytes read as the characters of the same codes.
pub open spec fn as_chars(s: Seq<u8>) -> Seq<char> {
    s.map_values(|b: u8| b as char)
}

/// The decimal text of a number, as characters.
pub open spec fn decimal_text(n: nat) -> Seq<char> {
    as_chars(decimal_of(n))
}

/// Checks a raw requested number against the range of levels, as
/// `checked_target` says.
pub fn check_target(raw: u16) -> (r: Result<u16, InputError>)
    ensures
        r == checked_target(raw),
{
    if raw == 0 {
        Ok(MIN_BRIGHTNESS)
    } else if raw > MAX_BRIGHTNESS {
        Err(InputError::TooHigh)
    } else {
        Ok(raw)
    }
}

/// Reads an absolute request, such as `4321`: the level it denotes, or why it
/// is refused.
pub fn parse_absolute(val: &str) -> (r: Result<u16, InputError>)
    ensures
        r == absolute_target(val@),
        r is Ok ==> MIN_BRIGHTNESS <= r->Ok_0 <= MAX_BRIGHTNESS,
{
    match parse_unsigned(val) {
        Some(v) => if v > MAX_BRIGHTNESS as u32 {
            Err(InputError::TooHigh)
        } else {
            check_target(v as u16)
        },
        None => Err(InputError::Invalid),
    }
}

/// For a percentage request such as `50%`, the number before the `%` signs
/// (every `%` at the end is removed); for any other text, `None`.
pub fn percent_prefix(val: &str) -> (r: Option<&str>)
    ensures
        is_percent_request(val@) ==> r is Some && r->Some_0@ == strip_percent(val@),
        !is_percent_request(val@) ==> r is None,
{
    let n = val.unicode_len();
    if n == 0 || val.get_char(n - 1) != '%' {
        return None;
    }
    let mut j: usize = n;
    assert(val@.take(n as int) =~= val@);
    while j > 0 && val.get_char(j - 1) == '%'
        invariant
            j <= n,
            n == val@.len(),
            strip_percent(val@.take(j as int)) == strip_percent(val@),
        decreases j,
    {
        proof {
            assert(val@.take(j as int).drop_last() =~= val@.take(j - 1));
        }
        j = j - 1;
    }
    let prefix = val.substring_char(0, j);
    assert(prefix@ =~= val@.take(j as int));
    Some(prefix)
}

/// A byte sequence of digits, read as characters, spells the same number.
proof fn lemma_chars_value_of_bytes(s: Seq<u8>)
    requires
        forall|i: int| 0 <= i < s.len() ==> is_digit(#[trigger] s[i]),
    ensures
        chars_value(as_chars(s)) == digits_value(s),
        forall|i: int| 0 <= i < s.len() ==> is_digit_char(#[trigger] as_chars(s)[i]),
    decreases s.len(),
{
    let c = as_chars(s);
    if s.len() > 0 {
        lemma_chars_value_of_bytes(s.drop_last());
        assert(c.drop_last() =~= as_chars(s.drop_last()));
        assert(c.last() == s.last() as char);
        assert((c.last() as nat - 48) as nat == digit_value(s.last()));
    }
    assert forall|i: int| 0 <= i < s.len() implies is_digit_char(#[trigger] c[i]) by {
        assert(c[i] == s[i] as char);
        assert(is_digit(s[i]));
    }
}

/// Every level from the lowest to the highest, written in decimal and read
/// back as an absolute request, denotes itself.
pub proof fn lemma_absolute_round_trip(v: u16)
    requires
        MIN_BRIGHTNESS <= v <= MAX_BRIGHTNESS,
    ensures
        absolute_target(decimal_text(v as nat)) == Ok::<u16, InputError>(v),
{
    let b = decimal_of(v as nat);
    lemma_decimal_of(v as nat);
    lemma_chars_value_of_bytes(b);
    let t = decimal_text(v as nat);
    assert(is_digit_char(t[0]));
    assert(literal_digits(t) == t);
}

} // verus!
