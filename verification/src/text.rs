//! Character-level helpers: comparison without regard to ASCII case, and
//! unsigned decimal numerals.

use vstd::prelude::*;

verus! {

/// The upper-case form of an ASCII letter; every other character is itself.
pub open spec fn ascii_upper(c: char) -> char {
    if 'a' <= c <= 'z' {
        ((c as int) - 32) as char
    } else {
        c
    }
}

/// A string with each of its characters in upper case.
pub open spec fn to_ascii_upper(s: Seq<char>) -> Seq<char> {
    Seq::new(s.len(), |i: int| ascii_upper(s[i]))
}

/// Whether two strings are the same once ASCII case is ignored.
pub open spec fn same_ignoring_case(a: Seq<char>, b: Seq<char>) -> bool {
    to_ascii_upper(a) == to_ascii_upper(b)
}

/// The value of a decimal digit.
pub open spec fn digit_value(c: char) -> nat
    recommends
        '0' <= c <= '9',
{
    (c as int - '0' as int) as nat
}

/// Whether a string is one decimal digit or more, and nothing else.
pub open spec fn is_decimal(s: Seq<char>) -> bool {
    s.len() > 0 && forall|i: int| 0 <= i < s.len() ==> '0' <= #[trigger] s[i] <= '9'
}

/// The number that a string of decimal digits writes.
pub open spec fn decimal_value(s: Seq<char>) -> nat
    decreases s.len(),
{
    if s.len() == 0 {
        0
    } else {
        10 * decimal_value(s.drop_last()) + digit_value(s.last())
    }
}

/// A numeral without the plus sign that may stand in front of it.
pub open spec fn without_plus_sign(s: Seq<char>) -> Seq<char> {
    if s.len() > 0 && s[0] == '+' {
        s.skip(1)
    } else {
        s
    }
}

/// The sixteen-bit number that a token writes: decimal digits, with or
/// without a plus sign in front, whose value is at most 65535. Any other
/// token writes none.
pub open spec fn numeral_value(s: Seq<char>) -> Option<u16> {
    let digits = without_plus_sign(s);
    if is_decimal(digits) && decimal_value(digits) <= 0xFFFF {
        Some(decimal_value(digits) as u16)
    } else {
        None
    }
}

/// A numeral never writes less than one of its own prefixes does.
pub proof fn lemma_decimal_value_monotonic(s: Seq<char>, n: int)
    requires
        0 <= n <= s.len(),
    ensures
        decimal_value(s.take(n)) <= decimal_value(s),
    decreases s.len() - n,
{
    if n == s.len() {
        assert(s.take(n) =~= s);
    } else {
        lemma_decimal_value_monotonic(s, n + 1);
        assert(s.take(n + 1).drop_last() =~= s.take(n));
    }
}

/// The upper-case form of a character, computed.
pub fn upper(c: char) -> (result: char)
    ensures
        result == ascii_upper(c),
{
    if 'a' <= c && c <= 'z' {
        let code: u8 = c as u8 - 32u8;
        code as char
    } else {
        c
    }
}

/// Compares two strings without regard to ASCII case.
pub fn eq_ignore_ascii_case(a: &str, b: &str) -> (result: bool)
    ensures
        result == same_ignoring_case(a@, b@),
{
    let len: usize = a.unicode_len();
    if b.unicode_len() != len {
        assert(to_ascii_upper(a@).len() != to_ascii_upper(b@).len());
        return false;
    }
    let mut i: usize = 0;
    while i < len
        invariant
            i <= len,
            len == a@.len(),
            len == b@.len(),
            forall|k: int| 0 <= k < i ==> ascii_upper(a@[k]) == ascii_upper(b@[k]),
        decreases len - i,
    {
        if upper(a.get_char(i)) != upper(b.get_char(i)) {
            assert(to_ascii_upper(a@)[i as int] != to_ascii_upper(b@)[i as int]);
            return false;
        }
        i += 1;
    }
    assert(to_ascii_upper(a@) =~= to_ascii_upper(b@));
    true
}

/// Reads a token as a sixteen-bit number.
pub fn parse_numeral(token: &str) -> (result: Option<u16>)
    ensures
        result == numeral_value(token@),
{
    let len: usize = token.unicode_len();
    let start: usize = if len > 0 && token.get_char(0) == '+' {
        1
    } else {
        0
    };
    let ghost digits = without_plus_sign(token@);
    assert(digits =~= token@.skip(start as int));
    if start == len {
        return None;
    }
    let mut value: u32 = 0;
    let mut i: usize = start;
    while i < len
        invariant
            start <= i <= len,
            start < len,
            len == token@.len(),
            digits == token@.skip(start as int),
            digits == without_plus_sign(token@),
            forall|k: int| 0 <= k < i - start ==> '0' <= #[trigger] digits[k] <= '9',
            value == decimal_value(digits.take(i - start)),
            value <= 0xFFFF,
        decreases len - i,
    {
        let c: char = token.get_char(i);
        if !('0' <= c && c <= '9') {
            assert(!('0' <= digits[i - start] <= '9'));
            return None;
        }
        let digit: u32 = (c as u8 - 48u8) as u32;
        assert(digits.take(i - start + 1).drop_last() =~= digits.take(i - start));
        assert(digits.take(i - start + 1).last() == c);
        value = 10 * value + digit;
        if value > 0xFFFF {
            proof {
                lemma_decimal_value_monotonic(digits, i - start + 1);
            }
            return None;
        }
        i += 1;
    }
    assert(digits.take(len - start) =~= digits);
    Some(value as u16)
}

} // verus!
