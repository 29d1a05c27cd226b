//! Character-level utilities shared by the classifier and the decoder.

use vstd::prelude::*;
use vstd::std_specs::iter::IteratorSpec;
use vstd::string::StringExecFns;

verus! {

broadcast use vstd::string::group_string_axioms;

/// Collects the characters of a string slice into a vector, preserving order.
pub fn chars_of(s: &str) -> (r: Vec<char>)
    ensures
        r@ == s@,
{
    let mut it = s.chars();
    let mut v: Vec<char> = Vec::new();
    let mut fin = false;
    while !fin
        invariant
            v@.len() <= s@.len(),
            v@ =~= s@.take(v@.len() as int),
            !fin ==> it.obeys_prophetic_iter_laws(),
            !fin ==> it.remaining() =~= s@.skip(v@.len() as int),
            fin ==> v@.len() == s@.len(),
        decreases (if fin { 0int } else { 1int }) + s@.len() - v@.len(),
    {
        let ghost k = v@.len() as int;
        match it.next() {
            Some(c) => {
                proof {
                    assert(it.remaining() =~= s@.skip(k + 1));
                    assert(c == s@[k]);
                }
                v.push(c);
                proof {
                    assert(v@ =~= s@.take(k + 1));
                }
            },
            None => {
                fin = true;
            },
        }
    }
    proof {
        assert(v@ =~= s@);
    }
    v
}

/// Relies on `char::to_string`: the one-character string for the given character.
#[verifier::external_body]
fn char_to_string(c: char) -> (r: String)
    ensures
        r@ == seq![c],
{
    c.to_string()
}

/// Builds a string holding exactly the given characters in order.
pub fn string_from_chars(v: &[char]) -> (r: String)
    ensures
        r@ == v@,
{
    let mut s = String::new();
    let mut i: usize = 0;
    while i < v.len()
        invariant
            i <= v@.len(),
            s@ =~= v@.take(i as int),
        decreases v@.len() - i,
    {
        let cs = char_to_string(v[i]);
        s.append(cs.as_str());
        proof {
            assert(s@ =~= v@.take(i as int + 1));
        }
        i = i + 1;
    }
    proof {
        assert(s@ =~= v@);
    }
    s
}

/// Copies the characters of `v` in the range `[lo, hi)` into a fresh vector.
pub fn copy_range(v: &Vec<char>, lo: usize, hi: usize) -> (r: Vec<char>)
    requires
        lo <= hi <= v@.len(),
    ensures
        r@ == v@.subrange(lo as int, hi as int),
{
    let mut r: Vec<char> = Vec::new();
    let mut i: usize = lo;
    while i < hi
        invariant
            lo <= i <= hi <= v@.len(),
            r@ =~= v@.subrange(lo as int, i as int),
        decreases hi - i,
    {
        r.push(v[i]);
        i = i + 1;
    }
    r
}

/// The position of the first occurrence of `c` in `s`, if any.
pub open spec fn spec_first_index(s: Seq<char>, c: char) -> Option<int>
    decreases s.len(),
{
    if s.len() == 0 {
        None
    } else if s[0] == c {
        Some(0int)
    } else {
        match spec_first_index(s.skip(1), c) {
            Some(j) => Some(j + 1),
            None => None,
        }
    }
}

pub proof fn lemma_first_index_is(s: Seq<char>, c: char, j: int)
    requires
        0 <= j < s.len(),
        s[j] == c,
        forall|k: int| 0 <= k < j ==> s[k] != c,
    ensures
        spec_first_index(s, c) == Some(j),
    decreases j,
{
    if j > 0 {
        assert(s[0] != c);
        assert(s.skip(1)[j - 1] == c);
        assert(forall|k: int| 0 <= k < j - 1 ==> s.skip(1)[k] != c);
        lemma_first_index_is(s.skip(1), c, j - 1);
    }
}

pub proof fn lemma_first_index_none(s: Seq<char>, c: char)
    requires
        forall|k: int| 0 <= k < s.len() ==> s[k] != c,
    ensures
        spec_first_index(s, c) is None,
    decreases s.len(),
{
    if s.len() > 0 {
        assert(forall|k: int| 0 <= k < s.skip(1).len() ==> s.skip(1)[k] != c);
        lemma_first_index_none(s.skip(1), c);
    }
}

/// The pieces of `s` between occurrences of the separator `c`.
pub open spec fn spec_split(s: Seq<char>, c: char) -> Seq<Seq<char>>
    decreases s.len(),
{
    match spec_first_index(s, c) {
        None => seq![s],
        Some(j) => if 0 <= j < s.len() {
            seq![s.take(j)] + spec_split(s.skip(j + 1), c)
        } else {
            seq![s]
        },
    }
}

/// The position of the first occurrence of `c` in `v` at or after `start`, if any.
pub fn first_index_from(v: &Vec<char>, start: usize, c: char) -> (r: Option<usize>)
    requires
        start <= v@.len(),
    ensures
        match r {
            Some(j) => start <= j < v@.len() && spec_first_index(v@.skip(start as int), c) == Some(
                j - start,
            ),
            None => spec_first_index(v@.skip(start as int), c) is None,
        },
{
    let ghost s = v@.skip(start as int);
    let n = v.len();
    let mut i: usize = start;
    while i < n
        invariant
            start <= i <= n,
            n == v@.len(),
            s == v@.skip(start as int),
            forall|k: int| 0 <= k < i - start ==> s[k] != c,
        decreases n - i,
    {
        if v[i] == c {
            proof {
                assert(s[i - start] == c);
                lemma_first_index_is(s, c, i - start);
            }
            return Some(i);
        }
        proof {
            assert(s[i - start] == v@[i as int]);
        }
        i = i + 1;
    }
    proof {
        lemma_first_index_none(s, c);
    }
    None
}

/// Splits the characters of `v` from `start` on at each occurrence of `c`.
pub fn split_chars(v: &Vec<char>, start: usize, c: char) -> (r: Vec<Vec<char>>)
    requires
        start <= v@.len(),
    ensures
        ({
            let parts = spec_split(v@.skip(start as int), c);
            r@.len() == parts.len() && forall|i: int|
                0 <= i < parts.len() ==> r@[i]@ == #[trigger] parts[i]
        }),
    decreases v@.len() - start,
{
    let ghost s = v@.skip(start as int);
    match first_index_from(v, start, c) {
        None => {
            let part = copy_range(v, start, v.len());
            proof {
                assert(part@ =~= s);
            }
            let mut out: Vec<Vec<char>> = Vec::new();
            out.push(part);
            out
        },
        Some(j) => {
            let n = v.len();
            proof {
                assert(j < n);
            }
            let part = copy_range(v, start, j);
            proof {
                assert(part@ =~= s.take(j - start));
                assert(v@.skip(j + 1) =~= s.skip(j - start + 1));
            }
            let mut rest = split_chars(v, j + 1, c);
            let mut out: Vec<Vec<char>> = Vec::new();
            out.push(part);
            out.append(&mut rest);
            out
        },
    }
}

/// Compares two character vectors for equality.
pub fn chars_eq(a: &Vec<char>, b: &Vec<char>) -> (r: bool)
    ensures
        r == (a@ == b@),
{
    if a.len() != b.len() {
        proof {
            assert(a@ != b@);
        }
        return false;
    }
    let mut i: usize = 0;
    while i < a.len()
        invariant
            i <= a@.len(),
            a@.len() == b@.len(),
            forall|j: int| 0 <= j < i ==> a@[j] == #[trigger] b@[j],
        decreases a@.len() - i,
    {
        if a[i] != b[i] {
            return false;
        }
        i = i + 1;
    }
    proof {
        assert(a@ =~= b@);
    }
    true
}

/// Relies on `char::from_u32`: `Some` exactly for Unicode scalar values,
/// returning the character with that code.
#[verifier::external_body]
pub fn char_from_u32(u: u32) -> (r: Option<char>)
    ensures
        r is Some <==> vstd::utf8::is_scalar(u),
        r matches Some(c) ==> c as u32 == u,
{
    char::from_u32(u)
}

} // verus!
