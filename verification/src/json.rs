//! A character-level JSON reader: the pieces from which the streaming
//! document decoder is built. Every parser consumes from a position in a
//! character sequence and returns the position after what it read;
//! `None` stands for malformed input.

use vstd::prelude::*;
use crate::digits::{spec_is_digit, spec_digit_val, spec_digits_value, lemma_digits_value_prefix};
use crate::text::char_from_u32;

verus! {

/// The characters JSON counts as whitespace between tokens.
pub open spec fn spec_is_ws(c: char) -> bool {
    c == ' ' || c == '\t' || c == '\n' || c == '\r'
}

/// The first position at or after `i` that holds no whitespace.
pub open spec fn spec_skip_ws(s: Seq<char>, i: int) -> int
    decreases s.len() - i,
{
    if 0 <= i < s.len() && spec_is_ws(s[i]) {
        spec_skip_ws(s, i + 1)
    } else {
        i
    }
}

pub proof fn lemma_skip_ws_bounds(s: Seq<char>, i: int)
    requires
        0 <= i <= s.len(),
    ensures
        i <= spec_skip_ws(s, i) <= s.len(),
        spec_skip_ws(s, i) < s.len() ==> !spec_is_ws(s[spec_skip_ws(s, i)]),
    decreases s.len() - i,
{
    if i < s.len() && spec_is_ws(s[i]) {
        lemma_skip_ws_bounds(s, i + 1);
    }
}

/// Advances past whitespace.
pub fn skip_ws(v: &Vec<char>, i: usize) -> (r: usize)
    requires
        i <= v@.len(),
    ensures
        r == spec_skip_ws(v@, i as int),
        i <= r <= v@.len(),
{
    let n = v.len();
    let mut cur: usize = i;
    while cur < n && (v[cur] == ' ' || v[cur] == '\t' || v[cur] == '\n' || v[cur] == '\r')
        invariant
            i <= cur <= n,
            n == v@.len(),
            spec_skip_ws(v@, i as int) == spec_skip_ws(v@, cur as int),
        decreases n - cur,
    {
        cur = cur + 1;
    }
    cur
}

/// Whether the text at `i` is exactly the literal `lit`.
pub open spec fn spec_parse_lit(s: Seq<char>, i: int, lit: Seq<char>) -> Option<int> {
    if 0 <= i && i + lit.len() <= s.len() && s.subrange(i, i + lit.len()) == lit {
        Some(i + lit.len())
    } else {
        None
    }
}

/// Reads the literal `lit`.
pub fn parse_lit(v: &Vec<char>, i: usize, lit: &Vec<char>) -> (r: Option<usize>)
    requires
        i <= v@.len(),
    ensures
        match r {
            Some(j) => spec_parse_lit(v@, i as int, lit@) == Some(j as int) && i <= j <= v@.len(),
            None => spec_parse_lit(v@, i as int, lit@) is None,
        },
{
    let m = lit.len();
    let n = v.len();
    if m > n - i {
        return None;
    }
    let mut k: usize = 0;
    while k < m
        invariant
            k <= m,
            m == lit@.len(),
            n == v@.len(),
            i + m <= n,
            forall|t: int| 0 <= t < k ==> v@[i + t] == #[trigger] lit@[t],
        decreases m - k,
    {
        if v[i + k] != lit[k] {
            proof {
                assert(v@.subrange(i as int, i + m) != lit@) by {
                    assert(v@.subrange(i as int, i + m)[k as int] != lit@[k as int]);
                }
            }
            return None;
        }
        k = k + 1;
    }
    proof {
        assert(v@.subrange(i as int, i + m) =~= lit@);
    }
    Some(i + m)
}

/// The value of one hexadecimal digit.
pub open spec fn spec_hex_val(c: char) -> Option<u32> {
    if '0' <= c <= '9' {
        Some((c as u32 - '0' as u32) as u32)
    } else if 'a' <= c <= 'f' {
        Some((c as u32 - 'a' as u32 + 10) as u32)
    } else if 'A' <= c <= 'F' {
        Some((c as u32 - 'A' as u32 + 10) as u32)
    } else {
        None
    }
}

/// The value of the four hexadecimal digits at `i`.
pub open spec fn spec_hex4(s: Seq<char>, i: int) -> Option<u32> {
    if 0 <= i && i + 4 <= s.len() {
        match (spec_hex_val(s[i]), spec_hex_val(s[i + 1]), spec_hex_val(s[i + 2]), spec_hex_val(
            s[i + 3],
        )) {
            (Some(a), Some(b), Some(c), Some(d)) => Some(
                ((((a * 16 + b) * 16) + c) * 16 + d) as u32,
            ),
            _ => None,
        }
    } else {
        None
    }
}

/// Reads one hexadecimal digit.
fn hex_val(c: char) -> (r: Option<u32>)
    ensures
        r == spec_hex_val(c),
{
    let u = c as u32;
    if 48 <= u && u <= 57 {
        Some(u - 48)
    } else if 97 <= u && u <= 102 {
        Some(u - 97 + 10)
    } else if 65 <= u && u <= 70 {
        Some(u - 65 + 10)
    } else {
        None
    }
}

/// Reads the four hexadecimal digits at `i`.
fn hex4(v: &Vec<char>, i: usize) -> (r: Option<u32>)
    requires
        i <= v@.len(),
    ensures
        r == spec_hex4(v@, i as int),
        r matches Some(u) ==> u < 0x10000,
{
    let n = v.len();
    if n - i < 4 {
        return None;
    }
    let a = hex_val(v[i]);
    let b = hex_val(v[i + 1]);
    let c = hex_val(v[i + 2]);
    let d = hex_val(v[i + 3]);
    match (a, b, c, d) {
        (Some(a), Some(b), Some(c), Some(d)) => Some((((a * 16 + b) * 16) + c) * 16 + d),
        _ => None,
    }
}

/// The character named by the escape starting at `i` (the position after
/// the backslash), and the position after it. A `\u` escape of a leading
/// surrogate must be followed by one of a trailing surrogate; the pair
/// names one character.
pub open spec fn spec_escape(s: Seq<char>, i: int) -> Option<(char, int)> {
    if 0 <= i < s.len() {
        let c = s[i];
        if c == '"' {
            Some(('"', i + 1))
        } else if c == '\\' {
            Some(('\\', i + 1))
        } else if c == '/' {
            Some(('/', i + 1))
        } else if c == 'b' {
            Some(('\u{0008}', i + 1))
        } else if c == 'f' {
            Some(('\u{000C}', i + 1))
        } else if c == 'n' {
            Some(('\n', i + 1))
        } else if c == 'r' {
            Some(('\r', i + 1))
        } else if c == 't' {
            Some(('\t', i + 1))
        } else if c == 'u' {
            spec_unicode_escape(s, i + 1)
        } else {
            None
        }
    } else {
        None
    }
}

/// The character named by the hexadecimal part of a `\u` escape at `i`.
pub open spec fn spec_unicode_escape(s: Seq<char>, i: int) -> Option<(char, int)> {
    match spec_hex4(s, i) {
        None => None,
        Some(c1) => if 0xD800 <= c1 < 0xDC00 {
            if i + 6 <= s.len() && s[i + 4] == '\\' && s[i + 5] == 'u' {
                match spec_hex4(s, i + 6) {
                    None => None,
                    Some(c2) => if 0xDC00 <= c2 < 0xE000 {
                        Some(
                            (
                                (0x10000 + (c1 - 0xD800) * 0x400 + (c2 - 0xDC00)) as u32 as char,
                                i + 10,
                            ),
                        )
                    } else {
                        None
                    },
                }
            } else {
                None
            }
        } else if 0xDC00 <= c1 < 0xE000 {
            None
        } else {
            Some((c1 as char, i + 4))
        },
    }
}

/// Reads the escape starting at `i`, the position after the backslash.
fn parse_escape(v: &Vec<char>, i: usize) -> (r: Option<(char, usize)>)
    requires
        i <= v@.len(),
    ensures
        match r {
            Some((c, j)) => spec_escape(v@, i as int) == Some((c, j as int)) && i < j <= v@.len(),
            None => spec_escape(v@, i as int) is None,
        },
{
    let n = v.len();
    if i >= n {
        return None;
    }
    let c = v[i];
    if c == '"' {
        Some(('"', i + 1))
    } else if c == '\\' {
        Some(('\\', i + 1))
    } else if c == '/' {
        Some(('/', i + 1))
    } else if c == 'b' {
        Some(('\u{0008}', i + 1))
    } else if c == 'f' {
        Some(('\u{000C}', i + 1))
    } else if c == 'n' {
        Some(('\n', i + 1))
    } else if c == 'r' {
        Some(('\r', i + 1))
    } else if c == 't' {
        Some(('\t', i + 1))
    } else if c == 'u' {
        match hex4(v, i + 1) {
            None => None,
            Some(c1) => {
                if 0xD800 <= c1 && c1 < 0xDC00 {
                    if n - (i + 1) >= 6 && v[i + 5] == '\\' && v[i + 6] == 'u' {
                        match hex4(v, i + 7) {
                            None => None,
                            Some(c2) => {
                                if 0xDC00 <= c2 && c2 < 0xE000 {
                                    let code = 0x10000 + (c1 - 0xD800) * 0x400 + (c2 - 0xDC00);
                                    proof {
                                        assert(vstd::utf8::is_scalar(code));
                                    }
                                    match char_from_u32(code) {
                                        Some(ch) => {
                                            proof {
                                                vstd::utf8::char_u32_cast(ch, code);
                                            }
                                            Some((ch, i + 11))
                                        },
                                        None => None,
                                    }
                                } else {
                                    None
                                }
                            },
                        }
                    } else {
                        None
                    }
                } else if 0xDC00 <= c1 && c1 < 0xE000 {
                    None
                } else {
                    proof {
                        assert(vstd::utf8::is_scalar(c1));
                    }
                    match char_from_u32(c1) {
                        Some(ch) => {
                            proof {
                                vstd::utf8::char_u32_cast(ch, c1);
                            }
                            Some((ch, i + 5))
                        },
                        None => None,
                    }
                }
            },
        }
    } else {
        None
    }
}

/// The content of the string whose opening quote stands just before `i`,
/// with escapes decoded, and the position after its closing quote.
pub open spec fn spec_string_body(s: Seq<char>, i: int) -> Option<(Seq<char>, int)>
    decreases s.len() - i,
{
    if i < 0 || i >= s.len() {
        None
    } else if s[i] == '"' {
        Some((Seq::<char>::empty(), i + 1))
    } else if s[i] == '\\' {
        match spec_escape(s, i + 1) {
            None => None,
            Some((ec, j)) => if i + 1 < j <= s.len() {
                match spec_string_body(s, j) {
                    None => None,
                    Some((rest, k)) => Some((seq![ec] + rest, k)),
                }
            } else {
                None
            },
        }
    } else if (s[i] as u32) < 32 {
        None
    } else {
        match spec_string_body(s, i + 1) {
            None => None,
            Some((rest, k)) => Some((seq![s[i]] + rest, k)),
        }
    }
}

/// The content of the string starting with its quote at `i`, with escapes
/// decoded, and the position after its closing quote.
pub open spec fn spec_parse_string(s: Seq<char>, i: int) -> Option<(Seq<char>, int)> {
    if 0 <= i < s.len() && s[i] == '"' {
        spec_string_body(s, i + 1)
    } else {
        None
    }
}

pub proof fn lemma_string_body_bounds(s: Seq<char>, i: int)
    ensures
        spec_string_body(s, i) matches Some((cs, j)) ==> i < j <= s.len(),
    decreases s.len() - i,
{
    if 0 <= i < s.len() {
        if s[i] == '\\' {
            if spec_escape(s, i + 1) is Some {
                let j = spec_escape(s, i + 1)->Some_0.1;
                if i + 1 < j <= s.len() {
                    lemma_string_body_bounds(s, j);
                }
            }
        } else {
            lemma_string_body_bounds(s, i + 1);
        }
    }
}

/// Reads the string starting with its quote at `i`.
pub fn parse_string(v: &Vec<char>, i: usize) -> (r: Option<(Vec<char>, usize)>)
    requires
        i <= v@.len(),
    ensures
        match r {
            Some((cs, j)) => spec_parse_string(v@, i as int) == Some((cs@, j as int)) && i < j
                <= v@.len(),
            None => spec_parse_string(v@, i as int) is None,
        },
{
    let n = v.len();
    if i >= n || v[i] != '"' {
        return None;
    }
    let mut acc: Vec<char> = Vec::new();
    let mut cur: usize = i + 1;
    proof {
        assert(acc@ + spec_string_body(v@, cur as int)->Some_0.0 =~= spec_string_body(
            v@,
            cur as int,
        )->Some_0.0);
    }
    loop
        invariant
            i < n,
            v@[i as int] == '"',
            i + 1 <= cur <= n,
            n == v@.len(),
            (match spec_string_body(v@, cur as int) {
                None => spec_string_body(v@, i + 1) is None,
                Some((rest, k)) => spec_string_body(v@, i + 1) == Some((acc@ + rest, k)),
            }),
        decreases n - cur,
    {
        if cur >= n {
            return None;
        }
        let c = v[cur];
        if c == '"' {
            proof {
                assert(acc@ + Seq::<char>::empty() =~= acc@);
            }
            return Some((acc, cur + 1));
        } else if c == '\\' {
            match parse_escape(v, cur + 1) {
                None => {
                    return None;
                },
                Some((ec, j)) => {
                    let ghost accold = acc@;
                    acc.push(ec);
                    proof {
                        if spec_string_body(v@, j as int) is Some {
                            let (rest, k) = spec_string_body(v@, j as int)->Some_0;
                            assert(accold + (seq![ec] + rest) =~= acc@ + rest);
                        }
                    }
                    cur = j;
                },
            }
        } else if (c as u32) < 32 {
            return None;
        } else {
            let ghost accold = acc@;
            acc.push(c);
            proof {
                if spec_string_body(v@, cur + 1) is Some {
                    let (rest, k) = spec_string_body(v@, cur + 1)->Some_0;
                    assert(accold + (seq![c] + rest) =~= acc@ + rest);
                }
            }
            cur = cur + 1;
        }
    }
}

/// The first position at or after `i` that holds no decimal digit.
pub open spec fn spec_digit_run(s: Seq<char>, i: int) -> int
    decreases s.len() - i,
{
    if 0 <= i < s.len() && spec_is_digit(s[i]) {
        spec_digit_run(s, i + 1)
    } else {
        i
    }
}

pub proof fn lemma_digit_run_bounds(s: Seq<char>, i: int)
    requires
        0 <= i <= s.len(),
    ensures
        i <= spec_digit_run(s, i) <= s.len(),
        forall|k: int| i <= k < spec_digit_run(s, i) ==> spec_is_digit(#[trigger] s[k]),
    decreases s.len() - i,
{
    if i < s.len() && spec_is_digit(s[i]) {
        lemma_digit_run_bounds(s, i + 1);
    }
}

/// Advances past decimal digits.
fn digit_run(v: &Vec<char>, i: usize) -> (r: usize)
    requires
        i <= v@.len(),
    ensures
        r == spec_digit_run(v@, i as int),
        i <= r <= v@.len(),
{
    let n = v.len();
    let mut cur: usize = i;
    while cur < n && '0' <= v[cur] && v[cur] <= '9'
        invariant
            i <= cur <= n,
            n == v@.len(),
            spec_digit_run(v@, i as int) == spec_digit_run(v@, cur as int),
        decreases n - cur,
    {
        cur = cur + 1;
    }
    cur
}

/// The value of the unsigned integer at `i`, in the way a 64-bit count is
/// read from a JSON document: plain decimal digits, no leading zero, not
/// followed by a fraction or exponent, and small enough to fit.
pub open spec fn spec_parse_number_u64(s: Seq<char>, i: int) -> Option<(u64, int)> {
    let j = spec_digit_run(s, i);
    if !(0 <= i < s.len()) {
        None
    } else if j == i {
        None
    } else if s[i] == '0' && j > i + 1 {
        None
    } else if j < s.len() && (s[j] == '.' || s[j] == 'e' || s[j] == 'E') {
        None
    } else if spec_digits_value(s.subrange(i, j)) > u64::MAX {
        None
    } else {
        Some((spec_digits_value(s.subrange(i, j)) as u64, j))
    }
}

/// Reads the unsigned integer at `i` as a 64-bit count.
pub fn parse_number_u64(v: &Vec<char>, i: usize) -> (r: Option<(u64, usize)>)
    requires
        i <= v@.len(),
    ensures
        match r {
            Some((u, j)) => spec_parse_number_u64(v@, i as int) == Some((u, j as int)) && i < j
                <= v@.len(),
            None => spec_parse_number_u64(v@, i as int) is None,
        },
{
    let n = v.len();
    let j = digit_run(v, i);
    proof {
        lemma_digit_run_bounds(v@, i as int);
    }
    if i >= n {
        return None;
    }
    if j == i {
        return None;
    }
    if v[i] == '0' && j > i + 1 {
        return None;
    }
    if j < n && (v[j] == '.' || v[j] == 'e' || v[j] == 'E') {
        return None;
    }
    let ghost digits = v@.subrange(i as int, j as int);
    let mut acc: u64 = 0;
    let mut cur: usize = i;
    proof {
        assert(digits.subrange(0, 0) =~= Seq::<char>::empty());
        assert(v@.subrange(i as int, i as int) =~= Seq::<char>::empty());
    }
    while cur < j
        invariant
            i <= cur <= j <= n,
            i < j,
            n == v@.len(),
            j == spec_digit_run(v@, i as int),
            !(v@[i as int] == '0' && j > i + 1),
            !(j < n && (v@[j as int] == '.' || v@[j as int] == 'e' || v@[j as int] == 'E')),
            digits == v@.subrange(i as int, j as int),
            forall|k: int| i <= k < j ==> spec_is_digit(#[trigger] v@[k]),
            acc as nat == spec_digits_value(v@.subrange(i as int, cur as int)),
        decreases j - cur,
    {
        let c = v[cur];
        proof {
            assert(spec_is_digit(v@[cur as int]));
        }
        let d = (c as u32 - 48) as u64;
        proof {
            assert(d == spec_digit_val(c));
            assert(v@.subrange(i as int, cur + 1).drop_last() =~= v@.subrange(i as int, cur as int));
            assert(v@.subrange(i as int, cur + 1).last() == c);
        }
        let m = (u64::MAX - d) / 10;
        proof {
            assert(u64::MAX - d == 10 * m + ((u64::MAX - d) % 10));
        }
        if acc > m {
            proof {
                assert(spec_digits_value(v@.subrange(i as int, cur + 1)) > u64::MAX);
                lemma_digits_value_prefix(digits, cur + 1 - i);
                assert(digits.take(cur + 1 - i) =~= v@.subrange(i as int, cur + 1));
            }
            return None;
        }
        proof {
            assert(acc * 10 + d <= u64::MAX);
        }
        acc = acc * 10 + d;
        cur = cur + 1;
    }
    Some((acc, j))
}

/// The position after the JSON number at `i`: an optional minus, an
/// integer part without a leading zero, an optional fraction, an optional
/// exponent. Only its shape is read; no value is computed.
pub open spec fn spec_skip_number(s: Seq<char>, i: int) -> Option<int> {
    if !(0 <= i < s.len()) {
        None
    } else {
        let i1 = if s[i] == '-' {
            i + 1
        } else {
            i
        };
        let j1 = spec_digit_run(s, i1);
        if j1 == i1 || (i1 < s.len() && s[i1] == '0' && j1 > i1 + 1) {
            None
        } else {
            match spec_frac_end(s, j1) {
                None => None,
                Some(jf) => spec_exp_end(s, jf),
            }
        }
    }
}

/// The position after an optional fraction part at `j`.
pub open spec fn spec_frac_end(s: Seq<char>, j: int) -> Option<int> {
    if 0 <= j < s.len() && s[j] == '.' {
        let j2 = spec_digit_run(s, j + 1);
        if j2 == j + 1 {
            None
        } else {
            Some(j2)
        }
    } else {
        Some(j)
    }
}

/// The position after an optional exponent part at `j`.
pub open spec fn spec_exp_end(s: Seq<char>, j: int) -> Option<int> {
    if 0 <= j < s.len() && (s[j] == 'e' || s[j] == 'E') {
        let k = if j + 1 < s.len() && (s[j + 1] == '+' || s[j + 1] == '-') {
            j + 2
        } else {
            j + 1
        };
        let j3 = spec_digit_run(s, k);
        if j3 == k {
            None
        } else {
            Some(j3)
        }
    } else {
        Some(j)
    }
}

/// Advances past the JSON number at `i`.
fn skip_number(v: &Vec<char>, i: usize) -> (r: Option<usize>)
    requires
        i <= v@.len(),
    ensures
        match r {
            Some(j) => spec_skip_number(v@, i as int) == Some(j as int) && i < j <= v@.len(),
            None => spec_skip_number(v@, i as int) is None,
        },
{
    let n = v.len();
    if i >= n {
        return None;
    }
    let i1 = if v[i] == '-' {
        i + 1
    } else {
        i
    };
    let j1 = digit_run(v, i1);
    proof {
        lemma_digit_run_bounds(v@, i1 as int);
    }
    if j1 == i1 {
        return None;
    }
    if v[i1] == '0' && j1 > i1 + 1 {
        return None;
    }
    let jf = if j1 < n && v[j1] == '.' {
        let j2 = digit_run(v, j1 + 1);
        if j2 == j1 + 1 {
            return None;
        }
        proof {
            lemma_digit_run_bounds(v@, j1 + 1);
        }
        j2
    } else {
        j1
    };
    if jf < n && (v[jf] == 'e' || v[jf] == 'E') {
        let k = if jf + 1 < n && (v[jf + 1] == '+' || v[jf + 1] == '-') {
            jf + 2
        } else {
            jf + 1
        };
        let j3 = digit_run(v, k);
        proof {
            lemma_digit_run_bounds(v@, k as int);
        }
        if j3 == k {
            None
        } else {
            Some(j3)
        }
    } else {
        Some(jf)
    }
}

/// The position after the value at `i`, read only to be discarded.
/// Nesting deeper than `d` compound values is refused.
pub open spec fn spec_skip_value(s: Seq<char>, i: int, d: nat) -> Option<int>
    decreases d, s.len() - i, 0int,
{
    if !(0 <= i < s.len()) {
        None
    } else {
        let c = s[i];
        if c == '"' {
            match spec_parse_string(s, i) {
                Some((cs, j)) => Some(j),
                None => None,
            }
        } else if c == 't' {
            spec_parse_lit(s, i, "true"@)
        } else if c == 'f' {
            spec_parse_lit(s, i, "false"@)
        } else if c == 'n' {
            spec_parse_lit(s, i, "null"@)
        } else if c == '-' || spec_is_digit(c) {
            spec_skip_number(s, i)
        } else if c == '{' {
            if d == 0 {
                None
            } else {
                let j = spec_skip_ws(s, i + 1);
                if i < j <= s.len() {
                    spec_skip_object_body(s, j, (d - 1) as nat)
                } else {
                    None
                }
            }
        } else if c == '[' {
            if d == 0 {
                None
            } else {
                let j = spec_skip_ws(s, i + 1);
                if i < j <= s.len() {
                    spec_skip_array_body(s, j, (d - 1) as nat)
                } else {
                    None
                }
            }
        } else {
            None
        }
    }
}

/// The position after the rest of an object whose opening brace was
/// consumed: either its closing brace at once, or its members.
pub open spec fn spec_skip_object_body(s: Seq<char>, i: int, d: nat) -> Option<int>
    decreases d, s.len() - i, 2int,
{
    if !(0 <= i < s.len()) {
        None
    } else if s[i] == '}' {
        Some(i + 1)
    } else {
        spec_skip_members(s, i, d)
    }
}

/// The position after the members of an object, the first of which must
/// start at `i`.
pub open spec fn spec_skip_members(s: Seq<char>, i: int, d: nat) -> Option<int>
    decreases d, s.len() - i, 1int,
{
    match spec_parse_string(s, i) {
        None => None,
        Some((key, j1)) => {
            let j2 = spec_skip_ws(s, j1);
            if 0 <= j2 < s.len() && s[j2] == ':' {
                let j3 = spec_skip_ws(s, j2 + 1);
                if i < j3 <= s.len() {
                    match spec_skip_value(s, j3, d) {
                        None => None,
                        Some(j4) => {
                            let j5 = spec_skip_ws(s, j4);
                            if 0 <= j5 < s.len() {
                                if s[j5] == ',' {
                                    let j6 = spec_skip_ws(s, j5 + 1);
                                    if i < j6 <= s.len() {
                                        spec_skip_members(s, j6, d)
                                    } else {
                                        None
                                    }
                                } else if s[j5] == '}' {
                                    Some(j5 + 1)
                                } else {
                                    None
                                }
                            } else {
                                None
                            }
                        },
                    }
                } else {
                    None
                }
            } else {
                None
            }
        },
    }
}

/// The position after the rest of an array whose opening bracket was
/// consumed: either its closing bracket at once, or its elements.
pub open spec fn spec_skip_array_body(s: Seq<char>, i: int, d: nat) -> Option<int>
    decreases d, s.len() - i, 2int,
{
    if !(0 <= i < s.len()) {
        None
    } else if s[i] == ']' {
        Some(i + 1)
    } else {
        spec_skip_elements(s, i, d)
    }
}

/// The position after the elements of an array, the first of which must
/// start at `i`.
pub open spec fn spec_skip_elements(s: Seq<char>, i: int, d: nat) -> Option<int>
    decreases d, s.len() - i, 1int,
{
    match spec_skip_value(s, i, d) {
        None => None,
        Some(j1) => {
            let j2 = spec_skip_ws(s, j1);
            if 0 <= j2 < s.len() {
                if s[j2] == ',' {
                    let j3 = spec_skip_ws(s, j2 + 1);
                    if i < j3 <= s.len() {
                        spec_skip_elements(s, j3, d)
                    } else {
                        None
                    }
                } else if s[j2] == ']' {
                    Some(j2 + 1)
                } else {
                    None
                }
            } else {
                None
            }
        },
    }
}

/// Advances past the value at `i`, whatever it is, refusing nesting
/// deeper than `d` compound values.
pub fn skip_value(v: &Vec<char>, i: usize, d: u32) -> (r: Option<usize>)
    requires
        i <= v@.len(),
    ensures
        match r {
            Some(j) => spec_skip_value(v@, i as int, d as nat) == Some(j as int) && i < j
                <= v@.len(),
            None => spec_skip_value(v@, i as int, d as nat) is None,
        },
    decreases d, v@.len() - i, 0int,
{
    let n = v.len();
    if i >= n {
        return None;
    }
    let c = v[i];
    if c == '"' {
        match parse_string(v, i) {
            Some((_cs, j)) => Some(j),
            None => None,
        }
    } else if c == 't' {
        parse_lit_true(v, i)
    } else if c == 'f' {
        parse_lit_false(v, i)
    } else if c == 'n' {
        parse_lit_null(v, i)
    } else if c == '-' || ('0' <= c && c <= '9') {
        skip_number(v, i)
    } else if c == '{' {
        if d == 0 {
            None
        } else {
            let j = skip_ws(v, i + 1);
            skip_object_body(v, j, d - 1)
        }
    } else if c == '[' {
        if d == 0 {
            None
        } else {
            let j = skip_ws(v, i + 1);
            skip_array_body(v, j, d - 1)
        }
    } else {
        None
    }
}

/// Reads the literal `true` at `i`.
fn parse_lit_true(v: &Vec<char>, i: usize) -> (r: Option<usize>)
    requires
        i <= v@.len(),
    ensures
        match r {
            Some(j) => spec_parse_lit(v@, i as int, "true"@) == Some(j as int) && i < j <= v@.len(),
            None => spec_parse_lit(v@, i as int, "true"@) is None,
        },
{
    proof {
        reveal_strlit("true");
    }
    let lit = crate::text::chars_of("true");
    parse_lit(v, i, &lit)
}

/// Reads the literal `false` at `i`.
fn parse_lit_false(v: &Vec<char>, i: usize) -> (r: Option<usize>)
    requires
        i <= v@.len(),
    ensures
        match r {
            Some(j) => spec_parse_lit(v@, i as int, "false"@) == Some(j as int) && i < j
                <= v@.len(),
            None => spec_parse_lit(v@, i as int, "false"@) is None,
        },
{
    proof {
        reveal_strlit("false");
    }
    let lit = crate::text::chars_of("false");
    parse_lit(v, i, &lit)
}

/// Reads the literal `null` at `i`.
fn parse_lit_null(v: &Vec<char>, i: usize) -> (r: Option<usize>)
    requires
        i <= v@.len(),
    ensures
        match r {
            Some(j) => spec_parse_lit(v@, i as int, "null"@) == Some(j as int) && i < j <= v@.len(),
            None => spec_parse_lit(v@, i as int, "null"@) is None,
        },
{
    proof {
        reveal_strlit("null");
    }
    let lit = crate::text::chars_of("null");
    parse_lit(v, i, &lit)
}

/// Advances past the rest of an object whose opening brace was consumed.
fn skip_object_body(v: &Vec<char>, i: usize, d: u32) -> (r: Option<usize>)
    requires
        i <= v@.len(),
    ensures
        match r {
            Some(j) => spec_skip_object_body(v@, i as int, d as nat) == Some(j as int) && i < j
                <= v@.len(),
            None => spec_skip_object_body(v@, i as int, d as nat) is None,
        },
    decreases d, v@.len() - i, 2int,
{
    let n = v.len();
    if i >= n {
        return None;
    }
    if v[i] == '}' {
        return Some(i + 1);
    }
    skip_members(v, i, d)
}

/// Advances past the members of an object, the first of which must start
/// at `i`.
fn skip_members(v: &Vec<char>, i: usize, d: u32) -> (r: Option<usize>)
    requires
        i <= v@.len(),
    ensures
        match r {
            Some(j) => spec_skip_members(v@, i as int, d as nat) == Some(j as int) && i < j
                <= v@.len(),
            None => spec_skip_members(v@, i as int, d as nat) is None,
        },
    decreases d, v@.len() - i, 1int,
{
    let n = v.len();
    let mut cur: usize = i;
    loop
        invariant
            i <= cur <= n,
            n == v@.len(),
            spec_skip_members(v@, i as int, d as nat) == spec_skip_members(
                v@,
                cur as int,
                d as nat,
            ),
        decreases n - cur,
    {
        match parse_string(v, cur) {
            None => {
                return None;
            },
            Some((_key, j1)) => {
                let j2 = skip_ws(v, j1);
                if j2 >= n || v[j2] != ':' {
                    return None;
                }
                let j3 = skip_ws(v, j2 + 1);
                match skip_value(v, j3, d) {
                    None => {
                        return None;
                    },
                    Some(j4) => {
                        let j5 = skip_ws(v, j4);
                        if j5 >= n {
                            return None;
                        }
                        if v[j5] == ',' {
                            let j6 = skip_ws(v, j5 + 1);
                            cur = j6;
                        } else if v[j5] == '}' {
                            return Some(j5 + 1);
                        } else {
                            return None;
                        }
                    },
                }
            },
        }
    }
}

/// Advances past the rest of an array whose opening bracket was consumed.
fn skip_array_body(v: &Vec<char>, i: usize, d: u32) -> (r: Option<usize>)
    requires
        i <= v@.len(),
    ensures
        match r {
            Some(j) => spec_skip_array_body(v@, i as int, d as nat) == Some(j as int) && i < j
                <= v@.len(),
            None => spec_skip_array_body(v@, i as int, d as nat) is None,
        },
    decreases d, v@.len() - i, 2int,
{
    let n = v.len();
    if i >= n {
        return None;
    }
    if v[i] == ']' {
        return Some(i + 1);
    }
    skip_elements(v, i, d)
}

/// Advances past the elements of an array, the first of which must start
/// at `i`.
fn skip_elements(v: &Vec<char>, i: usize, d: u32) -> (r: Option<usize>)
    requires
        i <= v@.len(),
    ensures
        match r {
            Some(j) => spec_skip_elements(v@, i as int, d as nat) == Some(j as int) && i < j
                <= v@.len(),
            None => spec_skip_elements(v@, i as int, d as nat) is None,
        },
    decreases d, v@.len() - i, 1int,
{
    let n = v.len();
    let mut cur: usize = i;
    loop
        invariant
            i <= cur <= n,
            n == v@.len(),
            spec_skip_elements(v@, i as int, d as nat) == spec_skip_elements(
                v@,
                cur as int,
                d as nat,
            ),
        decreases n - cur,
    {
        match skip_value(v, cur, d) {
            None => {
                return None;
            },
            Some(j1) => {
                let j2 = skip_ws(v, j1);
                if j2 >= n {
                    return None;
                }
                if v[j2] == ',' {
                    let j3 = skip_ws(v, j2 + 1);
                    cur = j3;
                } else if v[j2] == ']' {
                    return Some(j2 + 1);
                } else {
                    return None;
                }
            },
        }
    }
}

} // verus!
