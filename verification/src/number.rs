//! Decimal text of unsigned integers: writing them and reading them back.

use vstd::prelude::*;
use crate::text::push_char;

verus! {

/// The ASCII digit for `d` (0 to 9).
pub open spec fn digit_char(d: int) -> char {
    (48 + d) as char
}

/// Whether `c` is an ASCII digit.
pub open spec fn is_digit(c: char) -> bool {
    '0' <= c <= '9'
}

/// The value of an ASCII digit.
pub open spec fn digit_value(c: char) -> int {
    (c as u32) - 48
}

/// `n` in decimal, without leading zeros (how `Display` writes an unsigned integer).
pub open spec fn decimal_text(n: nat) -> Seq<char>
    decreases n,
{
    if n < 10 {
        seq![digit_char(n as int)]
    } else {
        decimal_text(n / 10).push(digit_char((n % 10) as int))
    }
}

/// Writes `n` in decimal.
pub fn u64_text(n: u64) -> (r: String)
    ensures
        r@ == decimal_text(n as nat),
    decreases n,
{
    let d = (n % 10) as u8;
    let c = (48u8 + d) as char;
    if n < 10 {
        let mut s = String::new();
        push_char(&mut s, c);
        assert(s@ =~= seq![digit_char(n as int)]);
        s
    } else {
        let mut s = u64_text(n / 10);
        push_char(&mut s, c);
        s
    }
}

/// The value of a sequence of ASCII digits.
pub open spec fn digits_value(s: Seq<char>) -> int
    decreases s.len(),
{
    if s.len() == 0 {
        0
    } else {
        digits_value(s.drop_last()) * 10 + digit_value(s.last())
    }
}

/// Whether every character of `s` is an ASCII digit.
pub open spec fn all_digits(s: Seq<char>) -> bool {
    forall|i: int| 0 <= i < s.len() ==> is_digit(#[trigger] s[i])
}

/// The digits that an unsigned `from_str` reads: `s` without one leading `+`.
pub open spec fn unsigned_digits(s: Seq<char>) -> Seq<char> {
    if s.len() > 0 && s[0] == '+' {
        s.drop_first()
    } else {
        s
    }
}

/// What `str::parse` gives for an unsigned type whose largest value is `max`:
/// an optional `+`, then at least one ASCII digit and nothing else, with a value
/// no larger than `max`; anything else is an error.
pub open spec fn parsed_unsigned(s: Seq<char>, max: int) -> Option<int> {
    let d = unsigned_digits(s);
    if d.len() > 0 && all_digits(d) && digits_value(d) <= max {
        Some(digits_value(d))
    } else {
        None
    }
}

/// A prefix of a digit sequence never has a larger value than the whole.
proof fn lemma_digits_value_prefix(s: Seq<char>, i: int)
    requires
        0 <= i <= s.len(),
        all_digits(s),
    ensures
        0 <= digits_value(s.take(i)) <= digits_value(s),
    decreases s.len(),
{
    if s.len() > 0 {
        assert(is_digit(s[s.len() - 1]));
        assert(all_digits(s.drop_last()));
        if i < s.len() {
            lemma_digits_value_prefix(s.drop_last(), i);
            assert(s.drop_last().take(i) =~= s.take(i));
        } else {
            lemma_digits_value_prefix(s.drop_last(), i - 1);
            assert(s.take(i) =~= s);
        }
    }
}

/// Reads an unsigned decimal number no larger than `max`, as `str::parse` reads
/// a `u64` (with `max` = `u64::MAX`) or a `u32` (with `max` = `u32::MAX`).
pub fn parse_unsigned(s: &str, max: u64) -> (r: Option<u64>)
    ensures
        r matches Some(v) ==> parsed_unsigned(s@, max as int) == Some(v as int),
        r is None ==> parsed_unsigned(s@, max as int) is None,
{
    let n = s.unicode_len();
    let start: usize = if n > 0 && s.get_char(0) == '+' { 1 } else { 0 };
    let ghost d = unsigned_digits(s@);
    assert(d =~= s@.subrange(start as int, n as int));
    if start == n {
        assert(d.len() == 0);
        assert(parsed_unsigned(s@, max as int) is None);
        return None;
    }
    let mut i = start;
    while i < n
        invariant
            start <= i <= n,
            n == s@.len(),
            d =~= s@.subrange(start as int, n as int),
            d == unsigned_digits(s@),
            forall|k: int| start <= k < i ==> is_digit(#[trigger] s@[k]),
        decreases n - i,
    {
        let c = s.get_char(i);
        if !('0' <= c && c <= '9') {
            assert(!is_digit(d[i - start]));
            return None;
        }
        i = i + 1;
    }
    assert(all_digits(d));
    let mut value: u64 = 0;
    let mut j = start;
    while j < n
        invariant
            start <= j <= n,
            n == s@.len(),
            d =~= s@.subrange(start as int, n as int),
            d == unsigned_digits(s@),
            all_digits(d),
            value as int == digits_value(d.take(j - start)),
            value <= max,
        decreases n - j,
    {
        let c = s.get_char(j);
        assert(d[j - start] == c);
        assert(is_digit(d[j - start]));
        let digit = (c as u32 - 48) as u64;
        assert(d.take(j + 1 - start).drop_last() =~= d.take(j - start));
        let next = (value as u128) * 10 + digit as u128;
        if next > max as u128 {
            proof {
                assert(digits_value(d.take(j + 1 - start)) == value * 10 + digit);
                lemma_digits_value_prefix(d, j + 1 - start);
            }
            return None;
        }
        value = next as u64;
        j = j + 1;
    }
    assert(d.take(n - start) =~= d);
    Some(value)
}

} // verus!
