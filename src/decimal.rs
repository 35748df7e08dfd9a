//! Decimal text: the brightness file's contents and plain unsigned literals.
use vstd::prelude::*;

verus! {

/// True of the byte of an ASCII digit `'0'..='9'`.
pub open spec fn is_digit(b: u8) -> bool {
    48 <= b <= 57
}

/// The value of an ASCII digit byte.
pub open spec fn digit_value(b: u8) -> nat {
    (b - 48) as nat
}

/// The number that a sequence of digit bytes spells in base ten
/// (the empty sequence spells 0).
pub open spec fn digits_value(s: Seq<u8>) -> nat
    decreases s.len(),
{
    if s.len() == 0 {
        0
    } else {
        10 * digits_value(s.drop_last()) + digit_value(s.last())
    }
}

/// The length of the run of digits with which `s` begins.
pub open spec fn leading_digit_count(s: Seq<u8>) -> nat
    decreases s.len(),
{
    if s.len() == 0 || !is_digit(s[0]) {
        0
    } else {
        1 + leading_digit_count(s.drop_first())
    }
}

/// The run of digits with which `s` begins.
pub open spec fn leading_digits(s: Seq<u8>) -> Seq<u8> {
    s.take(leading_digit_count(s) as int)
}

/// The count of leading digits is the index of the first non-digit byte.
proof fn lemma_leading_count_is_first_stop(s: Seq<u8>, n: int)
    requires
        0 <= n <= s.len(),
        forall|i: int| 0 <= i < n ==> is_digit(#[trigger] s[i]),
        n == s.len() || !is_digit(s[n]),
    ensures
        leading_digit_count(s) == n,
    decreases s.len(),
{
    if n > 0 {
        assert(is_digit(s[0]));
        assert forall|i: int| 0 <= i < n - 1 implies is_digit(#[trigger] s.drop_first()[i]) by {
            assert(s.drop_first()[i] == s[i + 1]);
        }
        if n < s.len() {
            assert(s.drop_first()[n - 1] == s[n]);
        }
        lemma_leading_count_is_first_stop(s.drop_first(), n - 1);
    }
}

/// Decodes the brightness file's contents: the value of the run of ASCII
/// digits at the start of `buf`, which ends at the first other byte (a
/// newline, say) or at the end. Contents that do not begin with a digit give
/// 0. The level is held in 16 bits, so a longer run wraps around.
pub fn parse_brightness(buf: &[u8]) -> (r: u16)
    ensures
        r as nat == digits_value(leading_digits(buf@)) % 65536,
{
    let mut bright: u16 = 0;
    let mut i: usize = 0;
    while i < buf.len() && 48 <= buf[i] && buf[i] <= 57
        invariant
            i <= buf@.len(),
            forall|k: int| 0 <= k < i ==> is_digit(#[trigger] buf@[k]),
            bright as nat == digits_value(buf@.take(i as int)) % 65536,
        decreases buf@.len() - i,
    {
        let b = buf[i];
        let prev = bright;
        bright = prev.wrapping_mul(10).wrapping_add((b - 48) as u16);
        proof {
            let t = buf@.take(i as int + 1);
            assert(t.drop_last() =~= buf@.take(i as int));
            assert(t.last() == b);
            lemma_wrapping_step(prev, digits_value(buf@.take(i as int)), digit_value(b));
        }
        i = i + 1;
    }
    proof {
        lemma_leading_count_is_first_stop(buf@, i as int);
    }
    bright
}

/// One step of base-ten accumulation, taken modulo 2^16.
proof fn lemma_wrapping_step(prev: u16, v: nat, d: nat)
    requires
        prev as nat == v % 65536,
        d < 10,
    ensures
        (((prev as int * 10) % 65536 + d) % 65536) as nat == (10 * v + d) % 65536,
{
    assert((((prev as int * 10) % 65536 + d) % 65536) == (10 * v + d) % 65536) by (nonlinear_arith)
        requires prev as int == v % 65536, d < 10;
}

/// The decimal digits of `n`, without leading zeros ("0" for zero).
pub open spec fn decimal_of(n: nat) -> Seq<u8>
    decreases n,
{
    if n < 10 {
        seq![(48 + n) as u8]
    } else {
        decimal_of(n / 10).push((48 + n % 10) as u8)
    }
}

/// Encodes a level as the brightness file takes it: its decimal digits, with
/// no sign, no leading zero and no newline.
pub fn decimal_bytes(n: u16) -> (r: Vec<u8>)
    ensures
        r@ == decimal_of(n as nat),
    decreases n,
{
    if n < 10 {
        vec![48 + n as u8]
    } else {
        let mut v = decimal_bytes(n / 10);
        v.push(48 + (n % 10) as u8);
        v
    }
}

/// The decimal digits of a number are digits, at least one of them, and spell
/// that number.
pub proof fn lemma_decimal_of(n: nat)
    ensures
        decimal_of(n).len() > 0,
        forall|i: int| 0 <= i < decimal_of(n).len() ==> is_digit(#[trigger] decimal_of(n)[i]),
        digits_value(decimal_of(n)) == n,
    decreases n,
{
    let d = decimal_of(n);
    if n >= 10 {
        lemma_decimal_of(n / 10);
        assert(d.drop_last() =~= decimal_of(n / 10));
        assert(digit_value(d.last()) == n % 10);
        assert(digits_value(d) == 10 * digits_value(decimal_of(n / 10)) + n % 10);
    } else {
        assert(d.drop_last() =~= Seq::<u8>::empty());
        assert(digits_value(d.drop_last()) == 0);
        assert(digit_value(d.last()) == n);
    }
}

/// Decoding the bytes of `s` followed by `rest`, where `s` is all digits and
/// `rest` does not begin with one, reads exactly the digits of `s`.
pub proof fn lemma_leading_digits_of_digits(s: Seq<u8>, rest: Seq<u8>)
    requires
        forall|i: int| 0 <= i < s.len() ==> is_digit(#[trigger] s[i]),
        rest.len() == 0 || !is_digit(rest[0]),
    ensures
        leading_digits(s + rest) == s,
{
    let t = s + rest;
    assert forall|i: int| 0 <= i < s.len() implies is_digit(#[trigger] t[i]) by {
        assert(t[i] == s[i]);
    }
    if rest.len() > 0 {
        assert(t[s.len() as int] == rest[0]);
    }
    lemma_leading_count_is_first_stop(t, s.len() as int);
    assert(t.take(s.len() as int) =~= s);
}

/// A level written to the brightness file and read back, whatever follows the
/// digits there (a newline, or nothing), is the same level.
pub proof fn lemma_file_round_trip(v: u16, rest: Seq<u8>)
    requires
        rest.len() == 0 || !is_digit(rest[0]),
    ensures
        digits_value(leading_digits(decimal_of(v as nat) + rest)) % 65536 == v as nat,
{
    lemma_decimal_of(v as nat);
    lemma_leading_digits_of_digits(decimal_of(v as nat), rest);
}

/// True of a decimal digit character.
pub open spec fn is_digit_char(c: char) -> bool {
    '0' <= c <= '9'
}

/// The number that a sequence of digit characters spells in base ten.
pub open spec fn chars_value(s: Seq<char>) -> nat
    decreases s.len(),
{
    if s.len() == 0 {
        0
    } else {
        10 * chars_value(s.drop_last()) + (s.last() as nat - 48) as nat
    }
}

/// The digits of an unsigned literal: the text after an optional leading `+`.
pub open spec fn literal_digits(s: Seq<char>) -> Seq<char> {
    if s.len() > 0 && s[0] == '+' {
        s.drop_first()
    } else {
        s
    }
}

/// True of an unsigned literal: an optional `+` followed by one or more
/// decimal digits. Anything else (a `-`, spaces, other characters, nothing at
/// all) is not one.
pub open spec fn is_unsigned_literal(s: Seq<char>) -> bool {
    let d = literal_digits(s);
    d.len() > 0 && forall|i: int| 0 <= i < d.len() ==> is_digit_char(#[trigger] d[i])
}

/// The value of an unsigned literal, held at 65536 when it is larger.
pub open spec fn capped_literal_value(s: Seq<char>) -> u32 {
    let v = chars_value(literal_digits(s));
    if v < 65536 {
        v as u32
    } else {
        65536
    }
}

/// Reads an unsigned literal of any length: its value, or 65536 for any value
/// from 65536 up; `None` for text that is no unsigned literal.
pub fn parse_unsigned(s: &str) -> (r: Option<u32>)
    ensures
        r == (if is_unsigned_literal(s@) {
            Some(capped_literal_value(s@))
        } else {
            None
        }),
{
    let n = s.unicode_len();
    let start: usize = if n > 0 && s.get_char(0) == '+' { 1 } else { 0 };
    if start == n {
        return None;
    }
    let ghost d = literal_digits(s@);
    assert(d =~= s@.subrange(start as int, n as int));
    let mut acc: u32 = 0;
    let mut i: usize = start;
    while i < n
        invariant
            start <= i <= n,
            n == s@.len(),
            d == s@.subrange(start as int, n as int),
            d == literal_digits(s@),
            forall|k: int| 0 <= k < i - start ==> is_digit_char(#[trigger] d[k]),
            acc as nat == if chars_value(d.take(i - start)) < 65536 {
                chars_value(d.take(i - start))
            } else {
                65536
            },
        decreases n - i,
    {
        let c = s.get_char(i);
        if c < '0' || c > '9' {
            assert(!is_digit_char(d[i - start]));
            return None;
        }
        let digit: u32 = (c as u32) - 48;
        let ghost before = chars_value(d.take(i - start));
        let next = acc * 10 + digit;
        acc = if next < 65536 { next } else { 65536 };
        proof {
            let t = d.take(i - start + 1);
            assert(t.drop_last() =~= d.take(i - start));
            assert(t.last() == c);
            assert(chars_value(t) == 10 * before + digit);
        }
        i = i + 1;
    }
    assert(d.take(n - start) =~= d);
    Some(acc)
}

} // verus!
