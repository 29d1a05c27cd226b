//! Decimal digit sequences: formatting and parsing of unsigned integers.

use vstd::prelude::*;
use crate::text::string_from_chars;

verus! {

/// Whether `c` is an ASCII decimal digit.
pub open spec fn spec_is_digit(c: char) -> bool {
    '0' <= c <= '9'
}

/// The numeric value of the digit `c`.
pub open spec fn spec_digit_val(c: char) -> nat {
    (c as u32 - '0' as u32) as nat
}

/// The digit character for a value below ten.
pub open spec fn spec_digit_char(d: nat) -> char {
    if d == 0 { '0' }
    else if d == 1 { '1' }
    else if d == 2 { '2' }
    else if d == 3 { '3' }
    else if d == 4 { '4' }
    else if d == 5 { '5' }
    else if d == 6 { '6' }
    else if d == 7 { '7' }
    else if d == 8 { '8' }
    else { '9' }
}

/// The decimal representation of `n`, most significant digit first,
/// without leading zeros (`0` is written as one digit).
pub open spec fn spec_dec_digits(n: nat) -> Seq<char>
    decreases n,
{
    if n < 10 {
        seq![spec_digit_char(n)]
    } else {
        spec_dec_digits(n / 10).push(spec_digit_char(n % 10))
    }
}

/// The value of a sequence of decimal digits, most significant first.
pub open spec fn spec_digits_value(s: Seq<char>) -> nat
    decreases s.len(),
{
    if s.len() == 0 {
        0
    } else {
        spec_digits_value(s.drop_last()) * 10 + spec_digit_val(s.last())
    }
}

/// Appending digits never lowers the value of a digit sequence.
pub proof fn lemma_digits_value_prefix(s: Seq<char>, i: int)
    requires
        0 <= i <= s.len(),
    ensures
        spec_digits_value(s.take(i)) <= spec_digits_value(s),
    decreases s.len() - i,
{
    if i < s.len() {
        assert(s.take(i + 1).drop_last() =~= s.take(i));
        assert(spec_digits_value(s.take(i)) <= spec_digits_value(s.take(i + 1)));
        lemma_digits_value_prefix(s, i + 1);
        assert(s.take(s.len() as int) =~= s);
    } else {
        assert(s.take(i) =~= s);
    }
}

/// The digit character for a value below ten.
pub fn digit_char(d: u64) -> (r: char)
    requires
        d < 10,
    ensures
        r == spec_digit_char(d as nat),
{
    if d == 0 { '0' }
    else if d == 1 { '1' }
    else if d == 2 { '2' }
    else if d == 3 { '3' }
    else if d == 4 { '4' }
    else if d == 5 { '5' }
    else if d == 6 { '6' }
    else if d == 7 { '7' }
    else if d == 8 { '8' }
    else { '9' }
}

/// The decimal digits of `n`, most significant first.
pub fn u64_dec_chars(n: u64) -> (r: Vec<char>)
    ensures
        r@ == spec_dec_digits(n as nat),
    decreases n,
{
    if n < 10 {
        let mut v: Vec<char> = Vec::new();
        v.push(digit_char(n));
        proof {
            assert(v@ =~= seq![spec_digit_char(n as nat)]);
        }
        v
    } else {
        let mut v = u64_dec_chars(n / 10);
        v.push(digit_char(n % 10));
        v
    }
}

/// The decimal representation of `n` as a string.
pub fn u64_to_dec_string(n: u64) -> (r: String)
    ensures
        r@ == spec_dec_digits(n as nat),
{
    let v = u64_dec_chars(n);
    string_from_chars(v.as_slice())
}

/// The way an unsigned integer literal can fail to parse.
#[derive(Clone, Copy, PartialEq, Eq, Structural, Debug)]
pub enum IntParseError {
    /// The input held no digits at all.
    Empty,
    /// A character that is not an ASCII digit appeared.
    InvalidDigit,
    /// The digits name a value above the largest `u64`.
    Overflow,
}

/// One step at a time, left to right: a character that is no digit stops
/// the parse at once, as does a value growing past the largest `u64`.
pub open spec fn spec_parse_digit_run(s: Seq<char>, acc: u64) -> Result<u64, IntParseError>
    decreases s.len(),
{
    if s.len() == 0 {
        Ok(acc)
    } else if !spec_is_digit(s[0]) {
        Err(IntParseError::InvalidDigit)
    } else if acc * 10 + spec_digit_val(s[0]) > u64::MAX {
        Err(IntParseError::Overflow)
    } else {
        spec_parse_digit_run(s.skip(1), (acc * 10 + spec_digit_val(s[0])) as u64)
    }
}

/// The result of parsing `s` in the manner of `u64` string parsing:
/// an optional leading `+`, then one or more decimal digits.
pub open spec fn spec_parse_u64(s: Seq<char>) -> Result<u64, IntParseError> {
    let body = if s.len() > 0 && s[0] == '+' {
        s.skip(1)
    } else {
        s
    };
    if body.len() == 0 {
        Err(IntParseError::Empty)
    } else {
        spec_parse_digit_run(body, 0)
    }
}

/// Parses the digits of `v` from `start` on as a `u64`.
fn parse_digits(v: &Vec<char>, start: usize) -> (r: Result<u64, IntParseError>)
    requires
        start <= v@.len(),
    ensures
        ({
            let body = v@.skip(start as int);
            if body.len() == 0 {
                r == Err::<u64, IntParseError>(IntParseError::Empty)
            } else {
                r == spec_parse_digit_run(body, 0)
            }
        }),
{
    let ghost body = v@.skip(start as int);
    if start == v.len() {
        return Err(IntParseError::Empty);
    }
    let mut acc: u64 = 0;
    let mut i: usize = start;
    let n = v.len();
    proof {
        assert(body.skip(0) =~= body);
    }
    while i < n
        invariant
            start <= i <= n,
            n == v@.len(),
            body == v@.skip(start as int),
            spec_parse_digit_run(body, 0) == spec_parse_digit_run(body.skip(i - start), acc),
        decreases n - i,
    {
        let ghost rest = body.skip(i - start);
        proof {
            assert(rest[0] == v@[i as int]);
            assert(rest.skip(1) =~= body.skip(i + 1 - start));
        }
        let c = v[i];
        if !('0' <= c && c <= '9') {
            return Err(IntParseError::InvalidDigit);
        }
        let d = (c as u32 - 48) as u64;
        proof {
            assert(d == spec_digit_val(c));
        }
        let m = (u64::MAX - d) / 10;
        proof {
            assert(u64::MAX - d == 10 * m + ((u64::MAX - d) % 10));
        }
        if acc > m {
            proof {
                assert(acc * 10 + d > u64::MAX);
            }
            return Err(IntParseError::Overflow);
        }
        proof {
            assert(acc * 10 + d <= u64::MAX);
        }
        acc = acc * 10 + d;
        i = i + 1;
    }
    proof {
        assert(body.skip(n - start) =~= Seq::<char>::empty());
    }
    Ok(acc)
}

/// Parses `v` from `start` on in the manner of `u64` string parsing:
/// an optional leading `+`, then one or more decimal digits.
pub fn parse_u64_chars(v: &Vec<char>, start: usize) -> (r: Result<u64, IntParseError>)
    requires
        start <= v@.len(),
    ensures
        r == spec_parse_u64(v@.skip(start as int)),
{
    let ghost s = v@.skip(start as int);
    if start < v.len() && v[start] == '+' {
        proof {
            assert(s[0] == '+');
            assert(v@.skip(start as int + 1) =~= s.skip(1));
        }
        parse_digits(v, start + 1)
    } else {
        proof {
            if s.len() > 0 {
                assert(s[0] == v@[start as int]);
            }
        }
        parse_digits(v, start)
    }
}

} // verus!
