//! Mapping from data categories to file extensions, metadata tags and
//! payload array keys, and the extension-based entry classifier.

use vstd::prelude::*;
use crate::FileType;
use crate::text::chars_of;

verus! {

/// The file extension expected for entries of the given category.
pub open spec fn spec_expected_extension(ft: FileType) -> Seq<char> {
    match ft {
        FileType::Bookmarks => "html"@,
        FileType::History => "json"@,
        FileType::Passwords => "csv"@,
        FileType::PaymentCards => "json"@,
    }
}

/// The metadata tag expected inside a JSON document of the given category;
/// `None` for the categories that are not JSON documents.
pub open spec fn spec_expected_data_type(ft: FileType) -> Option<Seq<char>> {
    match ft {
        FileType::History => Some("history"@),
        FileType::PaymentCards => Some("payment_cards"@),
        _ => None,
    }
}

/// The key of the payload array inside a JSON document of the given category;
/// `None` for the categories that are not JSON documents.
pub open spec fn spec_array_token(ft: FileType) -> Option<Seq<char>> {
    match ft {
        FileType::History => Some("history"@),
        FileType::PaymentCards => Some("payment_cards"@),
        _ => None,
    }
}

/// Returns the expected extension for the provided file type.
pub fn expected_extension(file_type: FileType) -> (r: &'static str)
    ensures
        r@ == spec_expected_extension(file_type),
{
    match file_type {
        FileType::Bookmarks => "html",
        FileType::History => "json",
        FileType::Passwords => "csv",
        FileType::PaymentCards => "json",
    }
}

/// Returns the expected data type for the provided file type.
pub fn expected_data_type(file_type: FileType) -> (r: Option<&'static str>)
    ensures
        match r {
            Some(s) => spec_expected_data_type(file_type) == Some(s@),
            None => spec_expected_data_type(file_type) is None,
        },
{
    match file_type {
        FileType::History => Some("history"),
        FileType::PaymentCards => Some("payment_cards"),
        _ => None,
    }
}

/// Returns the expected array token for the provided file type.
pub fn array_token_for_data_type(file_type: FileType) -> (r: Option<&'static str>)
    ensures
        match r {
            Some(s) => spec_array_token(file_type) == Some(s@),
            None => spec_array_token(file_type) is None,
        },
{
    match file_type {
        FileType::History => Some("history"),
        FileType::PaymentCards => Some("payment_cards"),
        _ => None,
    }
}

/// The position of the last occurrence of `c` in `s`, if any.
pub open spec fn spec_last_index(s: Seq<char>, c: char) -> Option<int>
    decreases s.len(),
{
    if s.len() == 0 {
        None
    } else if s[s.len() - 1] == c {
        Some(s.len() - 1)
    } else {
        spec_last_index(s.take(s.len() - 1), c)
    }
}

pub proof fn lemma_last_index_bounds(s: Seq<char>, c: char)
    ensures
        spec_last_index(s, c) matches Some(j) ==> 0 <= j < s.len() && s[j] == c,
    decreases s.len(),
{
    if s.len() > 0 && s[s.len() - 1] != c {
        lemma_last_index_bounds(s.take(s.len() - 1), c);
    }
}

/// The extension of the file named by `p`: the part of the final
/// path component after its last `.`, provided that dot is not the
/// component's first character.
pub open spec fn spec_path_extension(p: Seq<char>) -> Option<Seq<char>> {
    let name = match spec_last_index(p, '/') {
        Some(j) => p.skip(j + 1),
        None => p,
    };
    match spec_last_index(name, '.') {
        Some(k) => if k >= 1 {
            Some(name.skip(k + 1))
        } else {
            None
        },
        None => None,
    }
}

/// The code of `c`, with ASCII upper-case letters folded to lower case.
pub open spec fn spec_lower_code(c: char) -> u32 {
    if 65 <= c as u32 <= 90 {
        (c as u32 + 32) as u32
    } else {
        c as u32
    }
}

/// Character sequences equal up to ASCII case.
pub open spec fn spec_eq_ignore_ascii_case(a: Seq<char>, b: Seq<char>) -> bool {
    a.len() == b.len() && forall|i: int| 0 <= i < a.len() ==> spec_lower_code(a[i]) == spec_lower_code(#[trigger] b[i])
}

/// Whether the path has the extension of the requested category,
/// compared without regard to ASCII case.
pub open spec fn spec_has_extension(p: Seq<char>, ft: FileType) -> bool {
    match spec_path_extension(p) {
        Some(e) => spec_eq_ignore_ascii_case(e, spec_expected_extension(ft)),
        None => false,
    }
}

/// The position of the last occurrence of `c` in `v`, if any.
pub(crate) fn last_index_of(v: &Vec<char>, c: char) -> (r: Option<usize>)
    ensures
        match r {
            Some(j) => spec_last_index(v@, c) == Some(j as int),
            None => spec_last_index(v@, c) is None,
        },
{
    let mut i: usize = v.len();
    proof {
        assert(v@.take(v@.len() as int) =~= v@);
    }
    while i > 0
        invariant
            i <= v@.len(),
            spec_last_index(v@, c) == spec_last_index(v@.take(i as int), c),
        decreases i,
    {
        if v[i - 1] == c {
            proof {
                assert(v@.take(i as int)[i - 1] == c);
            }
            return Some(i - 1);
        }
        proof {
            assert(v@.take(i as int).take(i - 1) =~= v@.take(i - 1));
            assert(v@.take(i as int)[i - 1] != c);
        }
        i = i - 1;
    }
    proof {
        assert(v@.take(0) =~= Seq::<char>::empty());
    }
    None
}

/// Copies the characters of `v` from `start` on into a fresh vector.
fn tail_from(v: &Vec<char>, start: usize) -> (r: Vec<char>)
    requires
        start <= v@.len(),
    ensures
        r@ == v@.skip(start as int),
{
    let mut r: Vec<char> = Vec::new();
    let mut i: usize = start;
    while i < v.len()
        invariant
            start <= i <= v@.len(),
            r@ =~= v@.subrange(start as int, i as int),
        decreases v@.len() - i,
    {
        r.push(v[i]);
        i = i + 1;
    }
    proof {
        assert(r@ =~= v@.skip(start as int));
    }
    r
}

/// Folds one character's code to ASCII lower case.
fn lower_code(c: char) -> (r: u32)
    ensures
        r == spec_lower_code(c),
{
    let u = c as u32;
    if 65 <= u && u <= 90 {
        u + 32
    } else {
        u
    }
}

/// Compares two character vectors up to ASCII case.
fn eq_ignore_ascii_case(a: &Vec<char>, b: &Vec<char>) -> (r: bool)
    ensures
        r == spec_eq_ignore_ascii_case(a@, b@),
{
    if a.len() != b.len() {
        return false;
    }
    let mut i: usize = 0;
    while i < a.len()
        invariant
            i <= a@.len(),
            a@.len() == b@.len(),
            forall|j: int| 0 <= j < i ==> spec_lower_code(a@[j]) == spec_lower_code(#[trigger] b@[j]),
        decreases a@.len() - i,
    {
        if lower_code(a[i]) != lower_code(b[i]) {
            return false;
        }
        i = i + 1;
    }
    true
}

/// The extension of the path held in `pv`, as `spec_path_extension` names it.
pub(crate) fn path_extension_chars(pv: &Vec<char>) -> (r: Option<Vec<char>>)
    ensures
        match r {
            Some(e) => spec_path_extension(pv@) == Some(e@),
            None => spec_path_extension(pv@) is None,
        },
{
    proof {
        lemma_last_index_bounds(pv@, '/');
        assert(pv@.skip(0) =~= pv@);
    }
    let name = match last_index_of(pv, '/') {
        Some(j) => {
            let n = pv.len();
            proof {
                assert(j < n);
            }
            tail_from(pv, j + 1)
        },
        None => tail_from(pv, 0),
    };
    match last_index_of(&name, '.') {
        Some(k) => {
            let n = name.len();
            proof {
                lemma_last_index_bounds(name@, '.');
                assert(k < n);
            }
            if k >= 1 {
                Some(tail_from(&name, k + 1))
            } else {
                None
            }
        },
        None => None,
    }
}

/// Verifies if the file in the provided path has the desired extension.
pub fn has_extension(path: &str, file_type: FileType) -> (r: bool)
    ensures
        r == spec_has_extension(path@, file_type),
{
    let pv = chars_of(path);
    match path_extension_chars(&pv) {
        Some(ext) => {
            let exp = chars_of(expected_extension(file_type));
            eq_ignore_ascii_case(&ext, &exp)
        },
        None => false,
    }
}

} // verus!
