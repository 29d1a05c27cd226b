//! Utilities to handle vendored third-party crates: normalized crate
//! names, crate identities, and the bookkeeping of a crate's files.

use vstd::prelude::*;
use vstd::multiset::Multiset;
use vstd::string::StringExecFns;
use crate::category::{spec_path_extension, spec_last_index, path_extension_chars, last_index_of};
use crate::text::{chars_of, chars_eq, copy_range, first_index_from, spec_first_index, string_from_chars};

verus! {

broadcast use vstd::seq_lib::group_to_multiset_ensures, vstd::multiset::group_multiset_axioms;

#[derive(Clone, Copy, Debug, Eq, PartialEq, Structural)]
pub enum Visibility {
    /// The crate can be used by any build targets.
    Public,
    /// The crate can be used by only third-party crates.
    ThirdParty,
    /// The crate can be used by any test target, and in production by
    /// third-party crates.
    TestOnlyAndThirdParty,
}

/// Returns a default of `ThirdParty`, which is the most conservative option
/// and generally what we want if one isn't explicitly computed.
impl Default for Visibility {
    fn default() -> (r: Self)
        ensures
            r == Visibility::ThirdParty,
    {
        Visibility::ThirdParty
    }
}

/// `-` and `.` fold to `_`; every other character stands.
pub open spec fn spec_normalize_char(c: char) -> char {
    if c == '-' || c == '.' {
        '_'
    } else {
        c
    }
}

/// A crate name normalized: each character folded by `spec_normalize_char`.
pub open spec fn spec_normalized(s: Seq<char>) -> Seq<char> {
    s.map_values(|c: char| spec_normalize_char(c))
}

/// A crate name normalized to the format used under a third-party tree.
#[derive(Clone, Debug)]
pub struct NormalizedName(String);

impl View for NormalizedName {
    type V = Seq<char>;

    closed spec fn view(&self) -> Seq<char> {
        self.0@
    }
}

/// Folds one character of a crate name.
fn normalize_char(c: char) -> (r: char)
    ensures
        r == spec_normalize_char(c),
{
    if c == '-' || c == '.' {
        '_'
    } else {
        c
    }
}

impl NormalizedName {
    /// Wrap a normalized name, checking that it is valid.
    pub fn new(normalized_name: &str) -> (r: Option<NormalizedName>)
        ensures
            match r {
                Some(n) => spec_normalized(normalized_name@) == normalized_name@ && n@
                    == normalized_name@,
                None => spec_normalized(normalized_name@) != normalized_name@,
            },
    {
        let converted_name = Self::from_crate_name(normalized_name);
        let cv = chars_of(converted_name.0.as_str());
        let ov = chars_of(normalized_name);
        if chars_eq(&cv, &ov) {
            Some(converted_name)
        } else {
            None
        }
    }

    /// Normalize a crate name. `crate_name` is the name Cargo uses to refer
    /// to the crate.
    pub fn from_crate_name(crate_name: &str) -> (r: NormalizedName)
        ensures
            r@ == spec_normalized(crate_name@),
    {
        let cv = chars_of(crate_name);
        let n = cv.len();
        let mut out: Vec<char> = Vec::new();
        let mut i: usize = 0;
        while i < n
            invariant
                i <= n,
                n == cv@.len(),
                out@.len() == i,
                forall|j: int| 0 <= j < i ==> out@[j] == spec_normalize_char(#[trigger] cv@[j]),
            decreases n - i,
        {
            out.push(normalize_char(cv[i]));
            i = i + 1;
        }
        proof {
            assert(out@ =~= spec_normalized(cv@));
        }
        NormalizedName(string_from_chars(out.as_slice()))
    }

    /// Get the wrapped string.
    pub fn as_str(&self) -> (r: &str)
        ensures
            r@ == self@,
    {
        self.0.as_str()
    }
}

/// The text that the `Display` of `semver::Version` writes for a version.
pub uninterp spec fn spec_version_text(v: semver::Version) -> Seq<char>;

/// Relies on the `Display` of `semver::Version`: the dotted version text,
/// a function of the version value alone.
#[verifier::external_body]
fn version_to_string(v: &semver::Version) -> (r: String)
    ensures
        r@ == spec_version_text(*v),
{
    v.to_string()
}

/// Identifies a crate available in some vendored source. Each crate is
/// uniquely identified by its package name and version.
#[derive(Clone, Debug)]
pub struct VendoredCrate {
    pub name: String,
    pub version: semver::Version,
}

impl VendoredCrate {
    pub fn normalized_name(&self) -> (r: NormalizedName)
        ensures
            r@ == spec_normalized(self.name@),
    {
        NormalizedName::from_crate_name(self.name.as_str())
    }
}

/// Get the subdir name containing `id` in a vendor directory:
/// the package name, a dash, and the version text.
pub fn std_crate_path(id: &VendoredCrate) -> (r: String)
    ensures
        r@ == id.name@ + "-"@ + spec_version_text(id.version),
{
    let mut s = id.name.clone();
    s.append("-");
    let v = version_to_string(&id.version);
    s.append(v.as_str());
    s
}

/// The name of a vendored crate's directory may carry the version after a
/// dash, or stand bare: `dir_name` matches `std_path` when it equals the
/// whole of it, or equals it up to its last dash.
pub open spec fn spec_vendored_dir_matches(std_path: Seq<char>, dir_name: Seq<char>) -> bool {
    let bare = match spec_last_index(std_path, '-') {
        Some(j) => std_path.take(j),
        None => std_path,
    };
    std_path == dir_name || bare == dir_name
}

/// Whether a vendored crate directory's name matches the path that
/// `std_crate_path` writes for it, with or without the trailing version.
pub fn vendored_dir_matches(std_path: &str, dir_name: &str) -> (r: bool)
    ensures
        r == spec_vendored_dir_matches(std_path@, dir_name@),
{
    let pv = chars_of(std_path);
    let dv = chars_of(dir_name);
    if chars_eq(&pv, &dv) {
        return true;
    }
    proof {
        crate::category::lemma_last_index_bounds(pv@, '-');
    }
    let bare = match last_index_of(&pv, '-') {
        Some(j) => {
            let n = pv.len();
            proof {
                assert(j < n);
            }
            copy_range(&pv, 0, j)
        },
        None => copy_range(&pv, 0, pv.len()),
    };
    proof {
        assert(pv@.subrange(0, pv@.len() as int) =~= pv@);
        if spec_last_index(pv@, '-') is Some {
            let j = spec_last_index(pv@, '-')->Some_0;
            assert(pv@.subrange(0, j) =~= pv@.take(j));
        }
    }
    chars_eq(&bare, &dv)
}

/// The working files that a crate walk must pass over: entries under these
/// top-level names are local build products, not part of the crate.
pub open spec fn spec_skip_prefixes() -> Seq<Seq<char>> {
    seq![".devcontainer"@, ".vscode"@, "target"@]
}

/// Whether a path relative to a crate root starts with a component that a
/// crate file walk must pass over.
pub open spec fn spec_is_skipped_subpath(rel: Seq<char>) -> bool {
    let first = match spec_first_index(rel, '/') {
        Some(j) => rel.take(j),
        None => rel,
    };
    spec_skip_prefixes().contains(first)
}

/// Whether a path relative to a crate root lies under a directory that a
/// crate file walk must pass over.
pub fn is_skipped_subpath(rel: &str) -> (r: bool)
    ensures
        r == spec_is_skipped_subpath(rel@),
{
    let rv = chars_of(rel);
    let first = match first_index_from(&rv, 0, '/') {
        Some(j) => copy_range(&rv, 0, j),
        None => copy_range(&rv, 0, rv.len()),
    };
    proof {
        assert(rv@.skip(0) =~= rv@);
        assert(rv@.subrange(0, rv@.len() as int) =~= rv@);
        if spec_first_index(rv@, '/') is Some {
            let j = spec_first_index(rv@, '/')->Some_0;
            assert(rv@.subrange(0, j) =~= rv@.take(j));
        }
    }
    let a = chars_of(".devcontainer");
    let b = chars_of(".vscode");
    let c = chars_of("target");
    let hit = chars_eq(&first, &a) || chars_eq(&first, &b) || chars_eq(&first, &c);
    proof {
        if hit {
            assert(spec_skip_prefixes().contains(first@));
        } else {
            assert(spec_skip_prefixes()[0] == ".devcontainer"@);
            assert(spec_skip_prefixes()[1] == ".vscode"@);
            assert(spec_skip_prefixes()[2] == "target"@);
            assert(forall|k: int| 0 <= k < 3 ==> spec_skip_prefixes()[k] != first@);
            assert(!spec_skip_prefixes().contains(first@));
        }
    }
    hit
}

/// The per-file bookkeeping of a crate's build inputs.
pub struct CrateFiles {
    /// The list of all source files that are part of the crate and may be
    /// used when building any part of the crate. These files are those
    /// found under the crate root.
    pub sources: Vec<String>,
    /// The list of all input files that are part of the crate and may be
    /// used when building any part of the crate. This may contain source
    /// files as well that are part of other crates and which may be
    /// included or used through module paths.
    pub inputs: Vec<String>,
    /// The list of all native lib files that are part of the crate and may
    /// be depended on through link directives. These files are those found
    /// under the crate root.
    pub native_libs: Vec<String>,
    /// Like `sources` but for the crate's build script.
    pub build_script_sources: Vec<String>,
    /// Like `inputs` but for the crate's build script.
    pub build_script_inputs: Vec<String>,
}

/// The character sequences named by a list of strings.
pub open spec fn spec_views(vs: Seq<String>) -> Seq<Seq<char>> {
    vs.map_values(|s: String| s@)
}

/// Whether some string of `vs` holds the characters `x`.
pub open spec fn spec_contains_view(vs: Seq<String>, x: Seq<char>) -> bool {
    exists|i: int| 0 <= i < vs.len() && vs[i]@ == x
}

/// Lexicographic order on character sequences, by character code.
pub open spec fn spec_chars_le(a: Seq<char>, b: Seq<char>) -> bool
    decreases a.len(),
{
    if a.len() == 0 {
        true
    } else if b.len() == 0 {
        false
    } else if a[0] as u32 != b[0] as u32 {
        (a[0] as u32) < (b[0] as u32)
    } else {
        spec_chars_le(a.skip(1), b.skip(1))
    }
}

/// Strict lexicographic order on character sequences.
pub open spec fn spec_chars_lt(a: Seq<char>, b: Seq<char>) -> bool {
    spec_chars_le(a, b) && a != b
}

/// Every character sequence compares with itself.
pub proof fn lemma_chars_le_refl(a: Seq<char>)
    ensures
        spec_chars_le(a, a),
    decreases a.len(),
{
    if a.len() > 0 {
        lemma_chars_le_refl(a.skip(1));
    }
}

/// Any two character sequences compare.
pub proof fn lemma_chars_le_total(a: Seq<char>, b: Seq<char>)
    ensures
        spec_chars_le(a, b) || spec_chars_le(b, a),
    decreases a.len(),
{
    if a.len() > 0 && b.len() > 0 && a[0] as u32 == b[0] as u32 {
        lemma_chars_le_total(a.skip(1), b.skip(1));
    }
}

/// The order chains.
pub proof fn lemma_chars_le_trans(a: Seq<char>, b: Seq<char>, c: Seq<char>)
    requires
        spec_chars_le(a, b),
        spec_chars_le(b, c),
    ensures
        spec_chars_le(a, c),
    decreases a.len(),
{
    if a.len() > 0 && b.len() > 0 && c.len() > 0 && a[0] as u32 == b[0] as u32 && b[0] as u32
        == c[0] as u32 {
        lemma_chars_le_trans(a.skip(1), b.skip(1), c.skip(1));
    }
}

/// Sequences that compare both ways are equal.
pub proof fn lemma_chars_le_antisym(a: Seq<char>, b: Seq<char>)
    requires
        spec_chars_le(a, b),
        spec_chars_le(b, a),
    ensures
        a == b,
    decreases a.len(),
{
    if a.len() == 0 {
        assert(b.len() == 0);
        assert(a =~= b);
    } else {
        assert(b.len() > 0);
        if a[0] as u32 != b[0] as u32 {
            assert((a[0] as u32) < (b[0] as u32));
            assert((b[0] as u32) < (a[0] as u32));
        }
        assert(a[0] as u32 == b[0] as u32);
        vstd::utf8::char_u32_cast(a[0], a[0] as u32);
        vstd::utf8::char_u32_cast(b[0], a[0] as u32);
        assert(a[0] == b[0]);
        lemma_chars_le_antisym(a.skip(1), b.skip(1));
        assert forall|i: int| 0 <= i < a.len() implies a[i] == b[i] by {
            if i > 0 {
                assert(a.skip(1)[i - 1] == b.skip(1)[i - 1]);
            }
        }
        assert(a =~= b);
    }
}

/// A string of a list holds its characters.
proof fn lemma_cv_intro(vs: Seq<String>, t: int, x: Seq<char>)
    requires
        0 <= t < vs.len(),
        vs[t]@ == x,
    ensures
        spec_contains_view(vs, x),
{
    assert(0 <= t < vs.len() && vs[t]@ == x);
}

/// A witness index for characters held by some string of a list.
proof fn lemma_cv_elim(vs: Seq<String>, x: Seq<char>) -> (t: int)
    requires
        spec_contains_view(vs, x),
    ensures
        0 <= t < vs.len() && vs[t]@ == x,
{
    choose|b: int| 0 <= b < vs.len() && (#[trigger] vs[b])@ == x
}

/// Compares two strings in the lexicographic order of their characters.
fn str_le(a: &String, b: &String) -> (r: bool)
    ensures
        r == spec_chars_le(a@, b@),
{
    let av = chars_of(a.as_str());
    let bv = chars_of(b.as_str());
    let mut i: usize = 0;
    proof {
        assert(a@.skip(0) =~= a@);
        assert(b@.skip(0) =~= b@);
    }
    while i < av.len() && i < bv.len()
        invariant
            av@ == a@,
            bv@ == b@,
            i <= av@.len(),
            i <= bv@.len(),
            spec_chars_le(a@, b@) == spec_chars_le(a@.skip(i as int), b@.skip(i as int)),
        decreases av@.len() - i,
    {
        let ca = av[i] as u32;
        let cb = bv[i] as u32;
        proof {
            assert(a@.skip(i as int)[0] == a@[i as int]);
            assert(b@.skip(i as int)[0] == b@[i as int]);
            assert(a@.skip(i as int).skip(1) =~= a@.skip(i as int + 1));
            assert(b@.skip(i as int).skip(1) =~= b@.skip(i as int + 1));
        }
        if ca != cb {
            return ca < cb;
        }
        i = i + 1;
    }
    let r = i >= av.len();
    proof {
        if i >= av@.len() {
            assert(a@.skip(i as int).len() == 0);
        } else {
            assert(b@.skip(i as int).len() == 0);
            assert(a@.skip(i as int).len() > 0);
        }
    }
    r
}

/// Sorts the strings of `v` in the lexicographic order of their
/// characters, keeping exactly the same strings.
fn sort_strings(v: &mut Vec<String>)
    ensures
        final(v)@.to_multiset() == old(v)@.to_multiset(),
        forall|i: int, j: int|
            0 <= i < j < final(v)@.len() ==> spec_chars_le(
                #[trigger] final(v)@[i]@,
                #[trigger] final(v)@[j]@,
            ),
{
    let ghost orig = v@;
    let mut out: Vec<String> = Vec::new();
    proof {
        assert(out@.to_multiset().add(v@.to_multiset()) =~= orig.to_multiset());
    }
    while v.len() > 0
        invariant
            out@.to_multiset().add(v@.to_multiset()) == orig.to_multiset(),
            forall|i: int, j: int|
                0 <= i < j < out@.len() ==> spec_chars_le(
                    #[trigger] out@[i]@,
                    #[trigger] out@[j]@,
                ),
            forall|i: int, j: int|
                0 <= i < out@.len() && 0 <= j < v@.len() ==> spec_chars_le(
                    #[trigger] out@[i]@,
                    #[trigger] v@[j]@,
                ),
        decreases v@.len(),
    {
        let mut m: usize = 0;
        let mut k: usize = 1;
        proof {
            lemma_chars_le_refl(v@[0]@);
        }
        while k < v.len()
            invariant
                0 < v@.len(),
                m < k,
                k <= v@.len(),
                forall|t: int| 0 <= t < k ==> spec_chars_le(v@[m as int]@, #[trigger] v@[t]@),
            decreases v@.len() - k,
        {
            if str_le(&v[k], &v[m]) {
                proof {
                    assert forall|t: int| 0 <= t < k implies spec_chars_le(
                        v@[k as int]@,
                        #[trigger] v@[t]@,
                    ) by {
                        lemma_chars_le_trans(v@[k as int]@, v@[m as int]@, v@[t]@);
                    }
                    lemma_chars_le_refl(v@[k as int]@);
                }
                m = k;
            } else {
                proof {
                    lemma_chars_le_total(v@[k as int]@, v@[m as int]@);
                }
            }
            k = k + 1;
        }
        let ghost vold = v@;
        let ghost outold = out@;
        let x = v.remove(m);
        out.push(x);
        proof {
            assert(vold[m as int] == x);
            assert(vold.contains(x));
            assert(vold.to_multiset().count(x) > 0);
            assert(v@ == vold.remove(m as int));
            assert(vold.remove(m as int).to_multiset() =~= vold.to_multiset().remove(x));
            assert(outold.push(x).to_multiset() =~= outold.to_multiset().insert(x));
            assert(out@ == outold.push(x));
            assert(out@.to_multiset().add(v@.to_multiset()) =~= orig.to_multiset());
            assert forall|i: int, j: int| 0 <= i < j < out@.len() implies spec_chars_le(
                #[trigger] out@[i]@,
                #[trigger] out@[j]@,
            ) by {
                if j == out@.len() - 1 {
                    assert(out@[j] == x);
                    assert(spec_chars_le(outold[i]@, vold[m as int]@));
                } else {
                    assert(out@[i] == outold[i] && out@[j] == outold[j]);
                }
            }
            assert forall|i: int, j: int|
                0 <= i < out@.len() && 0 <= j < v@.len() implies spec_chars_le(
                #[trigger] out@[i]@,
                #[trigger] v@[j]@,
            ) by {
                let jo: int = if j < m { j } else { j + 1 };
                assert(v@[j] == vold[jo]);
                if i < out@.len() - 1 {
                    assert(spec_chars_le(outold[i]@, vold[jo]@));
                } else {
                    assert(out@[i] == x);
                    assert(spec_chars_le(vold[m as int]@, vold[jo]@));
                }
            }
        }
    }
    proof {
        assert(v@.to_multiset() =~= Multiset::<String>::empty());
        assert(out@.to_multiset().add(v@.to_multiset()) =~= out@.to_multiset());
    }
    *v = out;
}

/// Keeps the first of each run of equal strings in a sorted list.
fn dedup_sorted(v: &Vec<String>) -> (r: Vec<String>)
    requires
        forall|i: int, j: int|
            0 <= i < j < v@.len() ==> spec_chars_le(#[trigger] v@[i]@, #[trigger] v@[j]@),
    ensures
        forall|i: int, j: int|
            0 <= i < j < r@.len() ==> spec_chars_lt(#[trigger] r@[i]@, #[trigger] r@[j]@),
        forall|x: Seq<char>| spec_contains_view(r@, x) <==> spec_contains_view(v@, x),
{
    let mut out: Vec<String> = Vec::new();
    let mut i: usize = 0;
    let n = v.len();
    while i < n
        invariant
            i <= n,
            n == v@.len(),
            forall|a: int, b: int|
                0 <= a < b < v@.len() ==> spec_chars_le(#[trigger] v@[a]@, #[trigger] v@[b]@),
            forall|a: int, b: int|
                0 <= a < b < out@.len() ==> spec_chars_lt(#[trigger] out@[a]@, #[trigger] out@[b]@),
            i == 0 ==> out@.len() == 0,
            i > 0 ==> out@.len() > 0 && out@.last()@ == v@[i - 1]@,
            forall|x: Seq<char>|
                spec_contains_view(out@, x) <==> spec_contains_view(v@.take(i as int), x),
        decreases n - i,
    {
        let ghost outold = out@;
        let keep = if out.len() == 0 {
            true
        } else {
            let last = out.len() - 1;
            !string_eq(&out[last], &v[i])
        };
        if keep {
            proof {
                if i > 0 {
                    assert(spec_chars_le(v@[i - 1]@, v@[i as int]@));
                    assert(spec_chars_lt(out@.last()@, v@[i as int]@));
                    assert forall|a: int| 0 <= a < out@.len() implies spec_chars_lt(
                        #[trigger] out@[a]@,
                        v@[i as int]@,
                    ) by {
                        if a < out@.len() - 1 {
                            lemma_chars_le_trans(out@[a]@, out@.last()@, v@[i as int]@);
                            if out@[a]@ == v@[i as int]@ {
                                lemma_chars_le_antisym(out@[a]@, out@.last()@);
                            }
                        }
                    }
                }
            }
            out.push(v[i].clone());
        }
        proof {
            assert forall|x: Seq<char>|
                spec_contains_view(out@, x) <==> spec_contains_view(
                    v@.take(i as int + 1),
                    x,
                ) by {
                if spec_contains_view(out@, x) {
                    let w = lemma_cv_elim(out@, x);
                    if w < outold.len() {
                        lemma_cv_intro(outold, w, x);
                        let t = lemma_cv_elim(v@.take(i as int), x);
                        assert(v@.take(i as int + 1)[t] == v@[t]);
                        lemma_cv_intro(v@.take(i as int + 1), t, x);
                    } else {
                        assert(out@[w] == v@[i as int]);
                        assert(v@.take(i as int + 1)[i as int] == v@[i as int]);
                        lemma_cv_intro(v@.take(i as int + 1), i as int, x);
                    }
                }
                if spec_contains_view(v@.take(i as int + 1), x) {
                    let t = lemma_cv_elim(v@.take(i as int + 1), x);
                    if t < i {
                        assert(v@.take(i as int)[t] == v@[t]);
                        lemma_cv_intro(v@.take(i as int), t, x);
                        let w = lemma_cv_elim(outold, x);
                        assert(out@[w] == outold[w]);
                        lemma_cv_intro(out@, w, x);
                    } else {
                        assert(v@[i as int]@ == x);
                        if keep {
                            assert(out@[out@.len() - 1] == v@[i as int]);
                            lemma_cv_intro(out@, out@.len() - 1, x);
                        } else {
                            assert(outold[outold.len() - 1]@ == v@[i as int]@);
                            lemma_cv_intro(out@, out@.len() - 1, x);
                        }
                    }
                }
            }
        }
        i = i + 1;
    }
    proof {
        assert(v@.take(n as int) =~= v@);
    }
    out
}

/// Compares two strings for character equality.
fn string_eq(a: &String, b: &String) -> (r: bool)
    ensures
        r == (a@ == b@),
{
    a.eq(b)
}

/// Sorts one list of file names and drops repeated names: afterwards the
/// list is strictly ordered and holds exactly the names it held before.
fn sort_and_dedup_one(v: &mut Vec<String>)
    ensures
        forall|i: int, j: int|
            0 <= i < j < final(v)@.len() ==> spec_chars_lt(
                #[trigger] final(v)@[i]@,
                #[trigger] final(v)@[j]@,
            ),
        forall|x: Seq<char>| spec_contains_view(final(v)@, x) <==> spec_contains_view(old(v)@, x),
{
    let ghost orig = v@;
    sort_strings(v);
    proof {
        assert forall|x: Seq<char>|
            spec_contains_view(v@, x) <==> spec_contains_view(orig, x) by {
            lemma_multiset_same_views(v@, orig, x);
        }
    }
    let d = dedup_sorted(v);
    *v = d;
}

/// Lists with equal multisets hold the same character sequences.
proof fn lemma_multiset_same_views(a: Seq<String>, b: Seq<String>, x: Seq<char>)
    requires
        a.to_multiset() == b.to_multiset(),
    ensures
        spec_contains_view(a, x) <==> spec_contains_view(b, x),
{
    if spec_contains_view(a, x) {
        let i = choose|i: int| 0 <= i < a.len() && a[i]@ == x;
        assert(a.contains(a[i]));
        assert(a.to_multiset().count(a[i]) > 0);
        assert(b.to_multiset().count(a[i]) > 0);
        assert(b.contains(a[i]));
        let j = choose|j: int| 0 <= j < b.len() && b[j] == a[i];
        assert(b[j]@ == x);
    }
    if spec_contains_view(b, x) {
        let i = choose|i: int| 0 <= i < b.len() && b[i]@ == x;
        assert(b.contains(b[i]));
        assert(b.to_multiset().count(b[i]) > 0);
        assert(a.to_multiset().count(b[i]) > 0);
        assert(a.contains(b[i]));
        let j = choose|j: int| 0 <= j < a.len() && a[j] == b[i];
        assert(a[j]@ == x);
    }
}

impl CrateFiles {
    pub fn new() -> (r: Self)
        ensures
            r.sources@ == Seq::<String>::empty(),
            r.inputs@ == Seq::<String>::empty(),
            r.native_libs@ == Seq::<String>::empty(),
            r.build_script_sources@ == Seq::<String>::empty(),
            r.build_script_inputs@ == Seq::<String>::empty(),
    {
        Self {
            sources: Vec::new(),
            inputs: Vec::new(),
            native_libs: Vec::new(),
            build_script_sources: Vec::new(),
            build_script_inputs: Vec::new(),
        }
    }

    /// Sorts the CrateFiles for a deterministic output: every list ends up
    /// strictly ordered, holding exactly the names it held before.
    pub fn sort_and_dedup(&mut self)
        ensures
            spec_sorted_dedup_field(final(self).sources@, old(self).sources@),
            spec_sorted_dedup_field(final(self).inputs@, old(self).inputs@),
            spec_sorted_dedup_field(final(self).native_libs@, old(self).native_libs@),
            spec_sorted_dedup_field(final(self).build_script_sources@, old(self).build_script_sources@),
            spec_sorted_dedup_field(final(self).build_script_inputs@, old(self).build_script_inputs@),
    {
        sort_and_dedup_one(&mut self.sources);
        sort_and_dedup_one(&mut self.inputs);
        sort_and_dedup_one(&mut self.native_libs);
        sort_and_dedup_one(&mut self.build_script_sources);
        sort_and_dedup_one(&mut self.build_script_inputs);
    }
}

/// A deduplicated sorting: `new` is strictly ordered and holds exactly the
/// character sequences that `old` held.
pub open spec fn spec_sorted_dedup_field(new: Seq<String>, old: Seq<String>) -> bool {
    &&& forall|i: int, j: int|
        0 <= i < j < new.len() ==> spec_chars_lt(#[trigger] new[i]@, #[trigger] new[j]@)
    &&& forall|x: Seq<char>| spec_contains_view(new, x) <==> spec_contains_view(old, x)
}

/// Which targets of a crate take part in a build.
#[derive(Debug, PartialEq, Eq, Structural)]
pub enum IncludeCrateTargets {
    LibOnly,
    LibAndBin,
}

/// The way files found under one root directory of a crate are collected.
#[derive(Copy, Clone, PartialEq, Eq, Structural, Debug)]
pub enum CollectCrateFiles {
    /// Collect source files and store them as `sources` and other files as
    /// `inputs`. These are part of the crate directly.
    Internal,
    /// Collect source files, documentation and the other file types that
    /// may be included into the crate, and store them as `inputs`. These
    /// are not directly part of the crate.
    ExternalSourcesAndInputs,
    /// Like `ExternalSourcesAndInputs` but excludes source files.
    ExternalInputsOnly,
    /// Like `ExternalSourcesAndInputs` but for build scripts.
    BuildScriptExternalSourcesAndInputs,
    /// Like `ExternalInputsOnly` but for build scripts.
    BuildScriptExternalInputsOnly,
    /// Collect native library files and store them as `native_libs`. These
    /// can be depended on by the crate through link directives.
    LibsOnly,
}

/// The origin message of each collection mode, naming where its root
/// directories come from.
pub open spec fn spec_origin_msg(m: CollectCrateFiles) -> Seq<char> {
    match m {
        CollectCrateFiles::Internal => "crate metadata and sources"@,
        CollectCrateFiles::ExternalSourcesAndInputs => "`extra_src_roots` entry in `gnrt_config.toml`"@,
        CollectCrateFiles::ExternalInputsOnly => "`extra_input_roots` entry in `gnrt_config.toml`"@,
        CollectCrateFiles::BuildScriptExternalSourcesAndInputs => "`extra_build_script_src_roots` entry in `gnrt_config.toml`"@,
        CollectCrateFiles::BuildScriptExternalInputsOnly => "`extra_build_script_input_roots` entry in `gnrt_config.toml`"@,
        CollectCrateFiles::LibsOnly => "`native_libs_roots` entry in `gnrt_config.toml`"@,
    }
}

impl CollectCrateFiles {
    pub fn as_origin_msg(&self) -> (r: &'static str)
        ensures
            r@ == spec_origin_msg(*self),
    {
        match self {
            CollectCrateFiles::Internal => "crate metadata and sources",
            CollectCrateFiles::ExternalSourcesAndInputs => "`extra_src_roots` entry in `gnrt_config.toml`",
            CollectCrateFiles::ExternalInputsOnly => "`extra_input_roots` entry in `gnrt_config.toml`",
            CollectCrateFiles::BuildScriptExternalSourcesAndInputs => "`extra_build_script_src_roots` entry in `gnrt_config.toml`",
            CollectCrateFiles::BuildScriptExternalInputsOnly => "`extra_build_script_input_roots` entry in `gnrt_config.toml`",
            CollectCrateFiles::LibsOnly => "`native_libs_roots` entry in `gnrt_config.toml`",
        }
    }
}

/// The lists of a `CrateFiles`, as bare character sequences.
#[verifier::ext_equal]
pub struct CrateFilesV {
    pub sources: Seq<Seq<char>>,
    pub inputs: Seq<Seq<char>>,
    pub native_libs: Seq<Seq<char>>,
    pub build_script_sources: Seq<Seq<char>>,
    pub build_script_inputs: Seq<Seq<char>>,
}

/// The lists held by `f`, as bare character sequences.
pub open spec fn cf_view(f: &CrateFiles) -> CrateFilesV {
    CrateFilesV {
        sources: spec_views(f.sources@),
        inputs: spec_views(f.inputs@),
        native_libs: spec_views(f.native_libs@),
        build_script_sources: spec_views(f.build_script_sources@),
        build_script_inputs: spec_views(f.build_script_inputs@),
    }
}

/// Where one file belongs, given the mode of collection and the file's
/// extension: source files go to `sources` or `inputs` by mode; the
/// includable file types to `inputs` or the build script's; native
/// libraries to `native_libs`; everything else nowhere.
pub open spec fn spec_collect_crate_file(
    v: CrateFilesV,
    mode: CollectCrateFiles,
    path: Seq<char>,
) -> CrateFilesV {
    let ext = spec_path_extension(path);
    if ext == Some("rs"@) {
        match mode {
            CollectCrateFiles::Internal => CrateFilesV { sources: v.sources.push(path), ..v },
            CollectCrateFiles::ExternalSourcesAndInputs => CrateFilesV {
                inputs: v.inputs.push(path),
                ..v
            },
            CollectCrateFiles::BuildScriptExternalSourcesAndInputs => CrateFilesV {
                build_script_inputs: v.build_script_inputs.push(path),
                ..v
            },
            _ => v,
        }
    } else if ext == Some("md"@) || ext == Some("h"@) || ext == Some("json"@) || ext == Some(
        "data"@,
    ) || ext == Some("dat"@) {
        match mode {
            CollectCrateFiles::Internal | CollectCrateFiles::ExternalSourcesAndInputs
                | CollectCrateFiles::ExternalInputsOnly => CrateFilesV {
                inputs: v.inputs.push(path),
                ..v
            },
            CollectCrateFiles::BuildScriptExternalSourcesAndInputs
                | CollectCrateFiles::BuildScriptExternalInputsOnly => CrateFilesV {
                build_script_inputs: v.build_script_inputs.push(path),
                ..v
            },
            CollectCrateFiles::LibsOnly => v,
        }
    } else if ext == Some("lib"@) && mode == CollectCrateFiles::LibsOnly {
        CrateFilesV { native_libs: v.native_libs.push(path), ..v }
    } else {
        v
    }
}

/// Adds `filepath` to `files` depending on the type of file and the
/// `mode` of collection.
pub fn collect_crate_file(files: &mut CrateFiles, mode: CollectCrateFiles, filepath: &str)
    ensures
        cf_view(final(files)) == spec_collect_crate_file(cf_view(old(files)), mode, filepath@),
{
    let pv = chars_of(filepath);
    match path_extension_chars(&pv) {
        Some(e) => {
            if chars_eq(&e, &chars_of("rs")) {
                match mode {
                    CollectCrateFiles::Internal => {
                        files.sources.push(filepath.to_owned());
                    },
                    CollectCrateFiles::ExternalSourcesAndInputs => {
                        files.inputs.push(filepath.to_owned());
                    },
                    CollectCrateFiles::BuildScriptExternalSourcesAndInputs => {
                        files.build_script_inputs.push(filepath.to_owned());
                    },
                    _ => {},
                }
            } else if chars_eq(&e, &chars_of("md")) || chars_eq(&e, &chars_of("h")) || chars_eq(
                &e,
                &chars_of("json"),
            ) || chars_eq(&e, &chars_of("data")) || chars_eq(&e, &chars_of("dat")) {
                match mode {
                    CollectCrateFiles::Internal | CollectCrateFiles::ExternalSourcesAndInputs
                        | CollectCrateFiles::ExternalInputsOnly => {
                        files.inputs.push(filepath.to_owned());
                    },
                    CollectCrateFiles::BuildScriptExternalSourcesAndInputs
                        | CollectCrateFiles::BuildScriptExternalInputsOnly => {
                        files.build_script_inputs.push(filepath.to_owned());
                    },
                    CollectCrateFiles::LibsOnly => {},
                }
            } else if chars_eq(&e, &chars_of("lib")) && matches!(mode, CollectCrateFiles::LibsOnly) {
                files.native_libs.push(filepath.to_owned());
            }
        },
        None => {},
    }
    proof {
        assert(spec_views(files.sources@) =~= spec_collect_crate_file(
            cf_view(old(files)),
            mode,
            filepath@,
        ).sources);
        assert(spec_views(files.inputs@) =~= spec_collect_crate_file(
            cf_view(old(files)),
            mode,
            filepath@,
        ).inputs);
        assert(spec_views(files.native_libs@) =~= spec_collect_crate_file(
            cf_view(old(files)),
            mode,
            filepath@,
        ).native_libs);
        assert(spec_views(files.build_script_sources@) =~= spec_collect_crate_file(
            cf_view(old(files)),
            mode,
            filepath@,
        ).build_script_sources);
        assert(spec_views(files.build_script_inputs@) =~= spec_collect_crate_file(
            cf_view(old(files)),
            mode,
            filepath@,
        ).build_script_inputs);
        assert(cf_view(files) =~= spec_collect_crate_file(cf_view(old(files)), mode, filepath@));
    }
}

} // verus!
