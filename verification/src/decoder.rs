//! The metadata-gated streaming document decoder: reads one JSON
//! document, confirms its embedded metadata tag, and in extract mode
//! hands the payload array's records to the caller one by one,
//! stopping the moment its work is done.

use vstd::prelude::*;
use crate::json::{spec_parse_lit, spec_parse_string, spec_parse_number_u64, spec_skip_value,
    spec_skip_ws, parse_lit, parse_string, parse_number_u64, skip_value, skip_ws};
use crate::text::string_from_chars;
use crate::records::{HistoryJSONEntry, PaymentCardJSONEntry};

verus! {

/// A browsing history record, as bare values.
#[verifier::ext_equal]
pub struct HistRec {
    pub url: Seq<char>,
    pub title: Option<Seq<char>>,
    pub time_usec: u64,
    pub visit_count: u64,
}

/// A payment card record, as bare values.
#[verifier::ext_equal]
pub struct CardRec {
    pub card_number: Seq<char>,
    pub card_name: Option<Seq<char>>,
    pub cardholder_name: Option<Seq<char>>,
    pub card_expiration_month: Option<u64>,
    pub card_expiration_year: Option<u64>,
}

/// What has been gathered of a history record while its members are read.
#[verifier::ext_equal]
pub struct HistAcc {
    pub url: Option<Seq<char>>,
    pub title_seen: bool,
    pub title: Option<Seq<char>>,
    pub time_usec: Option<u64>,
    pub visit_count: Option<u64>,
}

/// The empty gathering.
pub open spec fn spec_hist_acc0() -> HistAcc {
    HistAcc { url: None, title_seen: false, title: None, time_usec: None, visit_count: None }
}

/// What has been gathered of a payment card record while its members are
/// read.
#[verifier::ext_equal]
pub struct CardAcc {
    pub number: Option<Seq<char>>,
    pub name_seen: bool,
    pub name: Option<Seq<char>>,
    pub holder_seen: bool,
    pub holder: Option<Seq<char>>,
    pub month_seen: bool,
    pub month: Option<u64>,
    pub year_seen: bool,
    pub year: Option<u64>,
}

/// The empty gathering.
pub open spec fn spec_card_acc0() -> CardAcc {
    CardAcc {
        number: None,
        name_seen: false,
        name: None,
        holder_seen: false,
        holder: None,
        month_seen: false,
        month: None,
        year_seen: false,
        year: None,
    }
}

/// A string value that may also be `null`: `null` stands for absence.
pub open spec fn spec_parse_opt_string(s: Seq<char>, i: int) -> Option<(Option<Seq<char>>, int)> {
    if 0 <= i < s.len() && s[i] == 'n' {
        match spec_parse_lit(s, i, "null"@) {
            Some(j) => Some((None, j)),
            None => None,
        }
    } else {
        match spec_parse_string(s, i) {
            Some((cs, j)) => Some((Some(cs), j)),
            None => None,
        }
    }
}

/// A count value that may also be `null`: `null` stands for absence.
pub open spec fn spec_parse_opt_u64(s: Seq<char>, i: int) -> Option<(Option<u64>, int)> {
    if 0 <= i < s.len() && s[i] == 'n' {
        match spec_parse_lit(s, i, "null"@) {
            Some(j) => Some((None, j)),
            None => None,
        }
    } else {
        match spec_parse_number_u64(s, i) {
            Some((u, j)) => Some((Some(u), j)),
            None => None,
        }
    }
}

/// Reads a string value that may also be `null`.
fn parse_opt_string(v: &Vec<char>, i: usize) -> (r: Option<(Option<Vec<char>>, usize)>)
    requires
        i <= v@.len(),
    ensures
        match r {
            Some((o, j)) => spec_parse_opt_string(v@, i as int) == Some(
                (
                    match o {
                        Some(cs) => Some(cs@),
                        None => None,
                    },
                    j as int,
                ),
            ) && i < j <= v@.len(),
            None => spec_parse_opt_string(v@, i as int) is None,
        },
{
    let n = v.len();
    if i < n && v[i] == 'n' {
        proof {
            reveal_strlit("null");
        }
        let lit = crate::text::chars_of("null");
        match parse_lit(v, i, &lit) {
            Some(j) => Some((None, j)),
            None => None,
        }
    } else {
        match parse_string(v, i) {
            Some((cs, j)) => Some((Some(cs), j)),
            None => None,
        }
    }
}

/// Reads a count value that may also be `null`.
fn parse_opt_u64(v: &Vec<char>, i: usize) -> (r: Option<(Option<u64>, usize)>)
    requires
        i <= v@.len(),
    ensures
        match r {
            Some((o, j)) => spec_parse_opt_u64(v@, i as int) == Some((o, j as int)) && i < j
                <= v@.len(),
            None => spec_parse_opt_u64(v@, i as int) is None,
        },
{
    let n = v.len();
    if i < n && v[i] == 'n' {
        proof {
            reveal_strlit("null");
        }
        let lit = crate::text::chars_of("null");
        match parse_lit(v, i, &lit) {
            Some(j) => Some((None, j)),
            None => None,
        }
    } else {
        match parse_number_u64(v, i) {
            Some((u, j)) => Some((Some(u), j)),
            None => None,
        }
    }
}

/// The characters held by an optional character vector.
pub open spec fn opt_chars_view(o: Option<Vec<char>>) -> Option<Seq<char>> {
    match o {
        Some(t) => Some(t@),
        None => None,
    }
}

/// The metadata object at `i`: its `data_type` member, which must appear
/// exactly once; every other member is read and discarded.
pub open spec fn spec_parse_metadata(s: Seq<char>, i: int, d: nat) -> Option<(Seq<char>, int)>
    decreases d, s.len() - i, 0int,
{
    if 0 <= i < s.len() && s[i] == '{' && d > 0 {
        let j = spec_skip_ws(s, i + 1);
        if i < j <= s.len() {
            spec_meta_body(s, j, (d - 1) as nat, None)
        } else {
            None
        }
    } else {
        None
    }
}

/// The rest of a metadata object: its closing brace, or members.
pub open spec fn spec_meta_body(s: Seq<char>, i: int, d: nat, dt: Option<Seq<char>>) -> Option<
    (Seq<char>, int),
>
    decreases d, s.len() - i, 3int,
{
    if !(0 <= i < s.len()) {
        None
    } else if s[i] == '}' {
        match dt {
            Some(t) => Some((t, i + 1)),
            None => None,
        }
    } else {
        spec_meta_members(s, i, d, dt)
    }
}

/// The members of a metadata object, the first starting at `i`.
pub open spec fn spec_meta_members(s: Seq<char>, i: int, d: nat, dt: Option<Seq<char>>) -> Option<
    (Seq<char>, int),
>
    decreases d, s.len() - i, 2int,
{
    match spec_parse_string(s, i) {
        None => None,
        Some((key, j1)) => {
            let j2 = spec_skip_ws(s, j1);
            if 0 <= j2 < s.len() && s[j2] == ':' {
                let j3 = spec_skip_ws(s, j2 + 1);
                if i < j3 <= s.len() {
                    if key == "data_type"@ {
                        if dt is Some {
                            None
                        } else {
                            match spec_parse_string(s, j3) {
                                None => None,
                                Some((t, j4)) => if j3 < j4 <= s.len() {
                                    spec_meta_after(s, j4, d, Some(t))
                                } else {
                                    None
                                },
                            }
                        }
                    } else {
                        match spec_skip_value(s, j3, d) {
                            None => None,
                            Some(j4) => if j3 < j4 <= s.len() {
                                spec_meta_after(s, j4, d, dt)
                            } else {
                                None
                            },
                        }
                    }
                } else {
                    None
                }
            } else {
                None
            }
        },
    }
}

/// What follows a metadata member: another member after a comma, or the
/// closing brace.
pub open spec fn spec_meta_after(s: Seq<char>, i: int, d: nat, dt: Option<Seq<char>>) -> Option<
    (Seq<char>, int),
>
    decreases d, s.len() - i, 1int,
{
    let j5 = spec_skip_ws(s, i);
    if !(i <= j5 < s.len()) {
        None
    } else if s[j5] == ',' {
        let j6 = spec_skip_ws(s, j5 + 1);
        if i < j6 <= s.len() {
            spec_meta_members(s, j6, d, dt)
        } else {
            None
        }
    } else if s[j5] == '}' {
        match dt {
            Some(t) => Some((t, j5 + 1)),
            None => None,
        }
    } else {
        None
    }
}

/// Reads the metadata object at `i` and returns its `data_type`.
fn parse_metadata(v: &Vec<char>, i: usize, d: u32) -> (r: Option<(Vec<char>, usize)>)
    requires
        i <= v@.len(),
    ensures
        match r {
            Some((t, j)) => spec_parse_metadata(v@, i as int, d as nat) == Some((t@, j as int))
                && i < j <= v@.len(),
            None => spec_parse_metadata(v@, i as int, d as nat) is None,
        },
{
    let n = v.len();
    if !(i < n && v[i] == '{' && d > 0) {
        return None;
    }
    let d1 = d - 1;
    let b0 = skip_ws(v, i + 1);
    let mut cur: usize = b0;
    let mut dt: Option<Vec<char>> = None;
    if cur < n && v[cur] == '}' {
        return None;  // no data_type member
    }
    loop
        invariant
            i < b0 <= cur <= n,
            n == v@.len(),
            spec_meta_body(v@, b0 as int, d1 as nat, None) == spec_meta_members(
                v@,
                cur as int,
                d1 as nat,
                match dt {
                    Some(t) => Some(t@),
                    None => None,
                },
            ),
            spec_parse_metadata(v@, i as int, d as nat) == spec_meta_body(
                v@,
                b0 as int,
                d1 as nat,
                None,
            ),
        decreases n - cur,
    {
        let ghost dts = opt_chars_view(dt);
        match parse_string(v, cur) {
            None => {
                return None;
            },
            Some((key, j1)) => {
                let j2 = skip_ws(v, j1);
                if j2 >= n || v[j2] != ':' {
                    return None;
                }
                let j3 = skip_ws(v, j2 + 1);
                let kd = crate::text::chars_of("data_type");
                let j4: usize;
                if crate::text::chars_eq(&key, &kd) {
                    if dt.is_some() {
                        return None;
                    }
                    match parse_string(v, j3) {
                        None => {
                            return None;
                        },
                        Some((t, j)) => {
                            dt = Some(t);
                            j4 = j;
                        },
                    }
                } else {
                    match skip_value(v, j3, d1) {
                        None => {
                            return None;
                        },
                        Some(j) => {
                            j4 = j;
                        },
                    }
                }
                let ghost dts2 = opt_chars_view(dt);
                proof {
                    assert(spec_meta_members(v@, cur as int, d1 as nat, dts) == spec_meta_after(
                        v@,
                        j4 as int,
                        d1 as nat,
                        dts2,
                    ));
                }
                let j5 = skip_ws(v, j4);
                if j5 >= n {
                    return None;
                }
                if v[j5] == ',' {
                    let j6 = skip_ws(v, j5 + 1);
                    cur = j6;
                } else if v[j5] == '}' {
                    match dt {
                        Some(t) => {
                            return Some((t, j5 + 1));
                        },
                        None => {
                            return None;
                        },
                    }
                } else {
                    return None;
                }
            },
        }
    }
}

/// The characters held by an optional string.
pub open spec fn opt_str_view(o: Option<String>) -> Option<Seq<char>> {
    match o {
        Some(t) => Some(t@),
        None => None,
    }
}

/// The bare values of a permissive history record.
pub open spec fn hist_json_rec(e: HistoryJSONEntry) -> HistRec {
    HistRec {
        url: e.url@,
        title: opt_str_view(e.title),
        time_usec: e.time_usec,
        visit_count: e.visit_count,
    }
}

/// The bare values of a permissive payment card record.
pub open spec fn card_json_rec(e: PaymentCardJSONEntry) -> CardRec {
    CardRec {
        card_number: e.card_number@,
        card_name: opt_str_view(e.card_name),
        cardholder_name: opt_str_view(e.cardholder_name),
        card_expiration_month: e.card_expiration_month,
        card_expiration_year: e.card_expiration_year,
    }
}

/// The record a finished gathering names, provided the required members
/// appeared.
pub open spec fn spec_hist_finish(acc: HistAcc, j: int) -> Option<(HistRec, int)> {
    match (acc.url, acc.time_usec, acc.visit_count) {
        (Some(u), Some(t), Some(c)) => Some(
            (HistRec { url: u, title: acc.title, time_usec: t, visit_count: c }, j),
        ),
        _ => None,
    }
}

/// The history record object at `i`.
pub open spec fn spec_parse_hist_entry(s: Seq<char>, i: int, d: nat) -> Option<(HistRec, int)>
    decreases d, s.len() - i, 0int,
{
    if 0 <= i < s.len() && s[i] == '{' && d > 0 {
        let j = spec_skip_ws(s, i + 1);
        if i < j <= s.len() {
            spec_hist_body(s, j, (d - 1) as nat, spec_hist_acc0())
        } else {
            None
        }
    } else {
        None
    }
}

/// The rest of a history record object: its closing brace, or members.
pub open spec fn spec_hist_body(s: Seq<char>, i: int, d: nat, acc: HistAcc) -> Option<
    (HistRec, int),
>
    decreases d, s.len() - i, 3int,
{
    if !(0 <= i < s.len()) {
        None
    } else if s[i] == '}' {
        spec_hist_finish(acc, i + 1)
    } else {
        spec_hist_members(s, i, d, acc)
    }
}

/// The members of a history record object, the first starting at `i`.
/// A known member may appear only once; unknown members are read and
/// discarded.
pub open spec fn spec_hist_members(s: Seq<char>, i: int, d: nat, acc: HistAcc) -> Option<
    (HistRec, int),
>
    decreases d, s.len() - i, 2int,
{
    match spec_parse_string(s, i) {
        None => None,
        Some((key, j1)) => {
            let j2 = spec_skip_ws(s, j1);
            if 0 <= j2 < s.len() && s[j2] == ':' {
                let j3 = spec_skip_ws(s, j2 + 1);
                if i < j3 <= s.len() {
                    if key == "url"@ {
                        if acc.url is Some {
                            None
                        } else {
                            match spec_parse_string(s, j3) {
                                None => None,
                                Some((u, j4)) => if j3 < j4 <= s.len() {
                                    spec_hist_after(s, j4, d, HistAcc { url: Some(u), ..acc })
                                } else {
                                    None
                                },
                            }
                        }
                    } else if key == "title"@ {
                        if acc.title_seen {
                            None
                        } else {
                            match spec_parse_opt_string(s, j3) {
                                None => None,
                                Some((t, j4)) => if j3 < j4 <= s.len() {
                                    spec_hist_after(
                                        s,
                                        j4,
                                        d,
                                        HistAcc { title_seen: true, title: t, ..acc },
                                    )
                                } else {
                                    None
                                },
                            }
                        }
                    } else if key == "time_usec"@ {
                        if acc.time_usec is Some {
                            None
                        } else {
                            match spec_parse_number_u64(s, j3) {
                                None => None,
                                Some((u, j4)) => if j3 < j4 <= s.len() {
                                    spec_hist_after(s, j4, d, HistAcc { time_usec: Some(u), ..acc })
                                } else {
                                    None
                                },
                            }
                        }
                    } else if key == "visit_count"@ {
                        if acc.visit_count is Some {
                            None
                        } else {
                            match spec_parse_number_u64(s, j3) {
                                None => None,
                                Some((u, j4)) => if j3 < j4 <= s.len() {
                                    spec_hist_after(
                                        s,
                                        j4,
                                        d,
                                        HistAcc { visit_count: Some(u), ..acc },
                                    )
                                } else {
                                    None
                                },
                            }
                        }
                    } else {
                        match spec_skip_value(s, j3, d) {
                            None => None,
                            Some(j4) => if j3 < j4 <= s.len() {
                                spec_hist_after(s, j4, d, acc)
                            } else {
                                None
                            },
                        }
                    }
                } else {
                    None
                }
            } else {
                None
            }
        },
    }
}

/// What follows a history record member: another member after a comma,
/// or the closing brace.
pub open spec fn spec_hist_after(s: Seq<char>, i: int, d: nat, acc: HistAcc) -> Option<
    (HistRec, int),
>
    decreases d, s.len() - i, 1int,
{
    let j5 = spec_skip_ws(s, i);
    if !(i <= j5 < s.len()) {
        None
    } else if s[j5] == ',' {
        let j6 = spec_skip_ws(s, j5 + 1);
        if i < j6 <= s.len() {
            spec_hist_members(s, j6, d, acc)
        } else {
            None
        }
    } else if s[j5] == '}' {
        spec_hist_finish(acc, j5 + 1)
    } else {
        None
    }
}

/// The value held by an optional character vector as a string record
/// field.
fn opt_string_of(o: Option<Vec<char>>) -> (r: Option<String>)
    ensures
        opt_str_view(r) == opt_chars_view(o),
{
    match o {
        Some(cs) => Some(string_from_chars(cs.as_slice())),
        None => None,
    }
}

/// Reads the history record object at `i`.
fn parse_hist_entry(v: &Vec<char>, i: usize, d: u32) -> (r: Option<(HistoryJSONEntry, usize)>)
    requires
        i <= v@.len(),
    ensures
        match r {
            Some((e, j)) => spec_parse_hist_entry(v@, i as int, d as nat) == Some(
                (hist_json_rec(e), j as int),
            ) && i < j <= v@.len(),
            None => spec_parse_hist_entry(v@, i as int, d as nat) is None,
        },
{
    let n = v.len();
    if !(i < n && v[i] == '{' && d > 0) {
        return None;
    }
    let d1 = d - 1;
    let b0 = skip_ws(v, i + 1);
    let mut url: Option<Vec<char>> = None;
    let mut title_seen = false;
    let mut title: Option<Vec<char>> = None;
    let mut time_usec: Option<u64> = None;
    let mut visit_count: Option<u64> = None;
    if b0 < n && v[b0] == '}' {
        return None;  // the required members are missing
    }
    let mut cur: usize = b0;
    loop
        invariant
            i < b0 <= cur <= n,
            n == v@.len(),
            spec_hist_body(v@, b0 as int, d1 as nat, spec_hist_acc0()) == spec_hist_members(
                v@,
                cur as int,
                d1 as nat,
                HistAcc {
                    url: opt_chars_view(url),
                    title_seen: title_seen,
                    title: opt_chars_view(title),
                    time_usec: time_usec,
                    visit_count: visit_count,
                },
            ),
            spec_parse_hist_entry(v@, i as int, d as nat) == spec_hist_body(
                v@,
                b0 as int,
                d1 as nat,
                spec_hist_acc0(),
            ),
        decreases n - cur,
    {
        let ghost acc = HistAcc {
            url: opt_chars_view(url),
            title_seen: title_seen,
            title: opt_chars_view(title),
            time_usec: time_usec,
            visit_count: visit_count,
        };
        match parse_string(v, cur) {
            None => {
                return None;
            },
            Some((key, j1)) => {
                let j2 = skip_ws(v, j1);
                if j2 >= n || v[j2] != ':' {
                    return None;
                }
                let j3 = skip_ws(v, j2 + 1);
                let j4: usize;
                if crate::text::chars_eq(&key, &crate::text::chars_of("url")) {
                    if url.is_some() {
                        return None;
                    }
                    match parse_string(v, j3) {
                        None => {
                            return None;
                        },
                        Some((u, j)) => {
                            url = Some(u);
                            j4 = j;
                        },
                    }
                } else if crate::text::chars_eq(&key, &crate::text::chars_of("title")) {
                    if title_seen {
                        return None;
                    }
                    match parse_opt_string(v, j3) {
                        None => {
                            return None;
                        },
                        Some((t, j)) => {
                            title_seen = true;
                            title = t;
                            j4 = j;
                        },
                    }
                } else if crate::text::chars_eq(&key, &crate::text::chars_of("time_usec")) {
                    if time_usec.is_some() {
                        return None;
                    }
                    match parse_number_u64(v, j3) {
                        None => {
                            return None;
                        },
                        Some((u, j)) => {
                            time_usec = Some(u);
                            j4 = j;
                        },
                    }
                } else if crate::text::chars_eq(&key, &crate::text::chars_of("visit_count")) {
                    if visit_count.is_some() {
                        return None;
                    }
                    match parse_number_u64(v, j3) {
                        None => {
                            return None;
                        },
                        Some((u, j)) => {
                            visit_count = Some(u);
                            j4 = j;
                        },
                    }
                } else {
                    match skip_value(v, j3, d1) {
                        None => {
                            return None;
                        },
                        Some(j) => {
                            j4 = j;
                        },
                    }
                }
                let ghost acc2 = HistAcc {
                    url: opt_chars_view(url),
                    title_seen: title_seen,
                    title: opt_chars_view(title),
                    time_usec: time_usec,
                    visit_count: visit_count,
                };
                proof {
                    assert(spec_hist_members(v@, cur as int, d1 as nat, acc) == spec_hist_after(
                        v@,
                        j4 as int,
                        d1 as nat,
                        acc2,
                    ));
                }
                let j5 = skip_ws(v, j4);
                if j5 >= n {
                    return None;
                }
                if v[j5] == ',' {
                    let j6 = skip_ws(v, j5 + 1);
                    cur = j6;
                } else if v[j5] == '}' {
                    match (url, time_usec, visit_count) {
                        (Some(u), Some(t), Some(c)) => {
                            let e = HistoryJSONEntry {
                                url: string_from_chars(u.as_slice()),
                                title: opt_string_of(title),
                                time_usec: t,
                                visit_count: c,
                            };
                            proof {
                                assert(hist_json_rec(e) =~= spec_hist_finish(
                                    acc2,
                                    j5 + 1,
                                )->Some_0.0);
                            }
                            return Some((e, j5 + 1));
                        },
                        _ => {
                            return None;
                        },
                    }
                } else {
                    return None;
                }
            },
        }
    }
}

/// The record a finished gathering names, provided the card number
/// appeared.
pub open spec fn spec_card_finish(acc: CardAcc, j: int) -> Option<(CardRec, int)> {
    match acc.number {
        Some(nb) => Some(
            (
                CardRec {
                    card_number: nb,
                    card_name: acc.name,
                    cardholder_name: acc.holder,
                    card_expiration_month: acc.month,
                    card_expiration_year: acc.year,
                },
                j,
            ),
        ),
        None => None,
    }
}

/// The payment card record object at `i`.
pub open spec fn spec_parse_card_entry(s: Seq<char>, i: int, d: nat) -> Option<(CardRec, int)>
    decreases d, s.len() - i, 0int,
{
    if 0 <= i < s.len() && s[i] == '{' && d > 0 {
        let j = spec_skip_ws(s, i + 1);
        if i < j <= s.len() {
            spec_card_body(s, j, (d - 1) as nat, spec_card_acc0())
        } else {
            None
        }
    } else {
        None
    }
}

/// The rest of a payment card record object: its closing brace, or
/// members.
pub open spec fn spec_card_body(s: Seq<char>, i: int, d: nat, acc: CardAcc) -> Option<
    (CardRec, int),
>
    decreases d, s.len() - i, 3int,
{
    if !(0 <= i < s.len()) {
        None
    } else if s[i] == '}' {
        spec_card_finish(acc, i + 1)
    } else {
        spec_card_members(s, i, d, acc)
    }
}

/// The members of a payment card record object, the first starting at
/// `i`. A known member may appear only once; unknown members are read
/// and discarded.
pub open spec fn spec_card_members(s: Seq<char>, i: int, d: nat, acc: CardAcc) -> Option<
    (CardRec, int),
>
    decreases d, s.len() - i, 2int,
{
    match spec_parse_string(s, i) {
        None => None,
        Some((key, j1)) => {
            let j2 = spec_skip_ws(s, j1);
            if 0 <= j2 < s.len() && s[j2] == ':' {
                let j3 = spec_skip_ws(s, j2 + 1);
                if i < j3 <= s.len() {
                    if key == "card_number"@ {
                        if acc.number is Some {
                            None
                        } else {
                            match spec_parse_string(s, j3) {
                                None => None,
                                Some((u, j4)) => if j3 < j4 <= s.len() {
                                    spec_card_after(s, j4, d, CardAcc { number: Some(u), ..acc })
                                } else {
                                    None
                                },
                            }
                        }
                    } else if key == "card_name"@ {
                        if acc.name_seen {
                            None
                        } else {
                            match spec_parse_opt_string(s, j3) {
                                None => None,
                                Some((t, j4)) => if j3 < j4 <= s.len() {
                                    spec_card_after(
                                        s,
                                        j4,
                                        d,
                                        CardAcc { name_seen: true, name: t, ..acc },
                                    )
                                } else {
                                    None
                                },
                            }
                        }
                    } else if key == "cardholder_name"@ {
                        if acc.holder_seen {
                            None
                        } else {
                            match spec_parse_opt_string(s, j3) {
                                None => None,
                                Some((t, j4)) => if j3 < j4 <= s.len() {
                                    spec_card_after(
                                        s,
                                        j4,
                                        d,
                                        CardAcc { holder_seen: true, holder: t, ..acc },
                                    )
                                } else {
                                    None
                                },
                            }
                        }
                    } else if key == "card_expiration_month"@ {
                        if acc.month_seen {
                            None
                        } else {
                            match spec_parse_opt_u64(s, j3) {
                                None => None,
                                Some((u, j4)) => if j3 < j4 <= s.len() {
                                    spec_card_after(
                                        s,
                                        j4,
                                        d,
                                        CardAcc { month_seen: true, month: u, ..acc },
                                    )
                                } else {
                                    None
                                },
                            }
                        }
                    } else if key == "card_expiration_year"@ {
                        if acc.year_seen {
                            None
                        } else {
                            match spec_parse_opt_u64(s, j3) {
                                None => None,
                                Some((u, j4)) => if j3 < j4 <= s.len() {
                                    spec_card_after(
                                        s,
                                        j4,
                                        d,
                                        CardAcc { year_seen: true, year: u, ..acc },
                                    )
                                } else {
                                    None
                                },
                            }
                        }
                    } else {
                        match spec_skip_value(s, j3, d) {
                            None => None,
                            Some(j4) => if j3 < j4 <= s.len() {
                                spec_card_after(s, j4, d, acc)
                            } else {
                                None
                            },
                        }
                    }
                } else {
                    None
                }
            } else {
                None
            }
        },
    }
}

/// What follows a payment card record member: another member after a
/// comma, or the closing brace.
pub open spec fn spec_card_after(s: Seq<char>, i: int, d: nat, acc: CardAcc) -> Option<
    (CardRec, int),
>
    decreases d, s.len() - i, 1int,
{
    let j5 = spec_skip_ws(s, i);
    if !(i <= j5 < s.len()) {
        None
    } else if s[j5] == ',' {
        let j6 = spec_skip_ws(s, j5 + 1);
        if i < j6 <= s.len() {
            spec_card_members(s, j6, d, acc)
        } else {
            None
        }
    } else if s[j5] == '}' {
        spec_card_finish(acc, j5 + 1)
    } else {
        None
    }
}

/// Reads the payment card record object at `i`.
fn parse_card_entry(v: &Vec<char>, i: usize, d: u32) -> (r: Option<(PaymentCardJSONEntry, usize)>)
    requires
        i <= v@.len(),
    ensures
        match r {
            Some((e, j)) => spec_parse_card_entry(v@, i as int, d as nat) == Some(
                (card_json_rec(e), j as int),
            ) && i < j <= v@.len(),
            None => spec_parse_card_entry(v@, i as int, d as nat) is None,
        },
{
    let n = v.len();
    if !(i < n && v[i] == '{' && d > 0) {
        return None;
    }
    let d1 = d - 1;
    let b0 = skip_ws(v, i + 1);
    let mut number: Option<Vec<char>> = None;
    let mut name_seen = false;
    let mut name: Option<Vec<char>> = None;
    let mut holder_seen = false;
    let mut holder: Option<Vec<char>> = None;
    let mut month_seen = false;
    let mut month: Option<u64> = None;
    let mut year_seen = false;
    let mut year: Option<u64> = None;
    if b0 < n && v[b0] == '}' {
        return None;  // the required member is missing
    }
    let mut cur: usize = b0;
    loop
        invariant
            i < b0 <= cur <= n,
            n == v@.len(),
            spec_card_body(v@, b0 as int, d1 as nat, spec_card_acc0()) == spec_card_members(
                v@,
                cur as int,
                d1 as nat,
                CardAcc {
                    number: opt_chars_view(number),
                    name_seen: name_seen,
                    name: opt_chars_view(name),
                    holder_seen: holder_seen,
                    holder: opt_chars_view(holder),
                    month_seen: month_seen,
                    month: month,
                    year_seen: year_seen,
                    year: year,
                },
            ),
            spec_parse_card_entry(v@, i as int, d as nat) == spec_card_body(
                v@,
                b0 as int,
                d1 as nat,
                spec_card_acc0(),
            ),
        decreases n - cur,
    {
        let ghost acc = CardAcc {
            number: opt_chars_view(number),
            name_seen: name_seen,
            name: opt_chars_view(name),
            holder_seen: holder_seen,
            holder: opt_chars_view(holder),
            month_seen: month_seen,
            month: month,
            year_seen: year_seen,
            year: year,
        };
        match parse_string(v, cur) {
            None => {
                return None;
            },
            Some((key, j1)) => {
                let j2 = skip_ws(v, j1);
                if j2 >= n || v[j2] != ':' {
                    return None;
                }
                let j3 = skip_ws(v, j2 + 1);
                let j4: usize;
                if crate::text::chars_eq(&key, &crate::text::chars_of("card_number")) {
                    if number.is_some() {
                        return None;
                    }
                    match parse_string(v, j3) {
                        None => {
                            return None;
                        },
                        Some((u, j)) => {
                            number = Some(u);
                            j4 = j;
                        },
                    }
                } else if crate::text::chars_eq(&key, &crate::text::chars_of("card_name")) {
                    if name_seen {
                        return None;
                    }
                    match parse_opt_string(v, j3) {
                        None => {
                            return None;
                        },
                        Some((t, j)) => {
                            name_seen = true;
                            name = t;
                            j4 = j;
                        },
                    }
                } else if crate::text::chars_eq(&key, &crate::text::chars_of("cardholder_name")) {
                    if holder_seen {
                        return None;
                    }
                    match parse_opt_string(v, j3) {
                        None => {
                            return None;
                        },
                        Some((t, j)) => {
                            holder_seen = true;
                            holder = t;
                            j4 = j;
                        },
                    }
                } else if crate::text::chars_eq(
                    &key,
                    &crate::text::chars_of("card_expiration_month"),
                ) {
                    if month_seen {
                        return None;
                    }
                    match parse_opt_u64(v, j3) {
                        None => {
                            return None;
                        },
                        Some((u, j)) => {
                            month_seen = true;
                            month = u;
                            j4 = j;
                        },
                    }
                } else if crate::text::chars_eq(
                    &key,
                    &crate::text::chars_of("card_expiration_year"),
                ) {
                    if year_seen {
                        return None;
                    }
                    match parse_opt_u64(v, j3) {
                        None => {
                            return None;
                        },
                        Some((u, j)) => {
                            year_seen = true;
                            year = u;
                            j4 = j;
                        },
                    }
                } else {
                    match skip_value(v, j3, d1) {
                        None => {
                            return None;
                        },
                        Some(j) => {
                            j4 = j;
                        },
                    }
                }
                let ghost acc2 = CardAcc {
                    number: opt_chars_view(number),
                    name_seen: name_seen,
                    name: opt_chars_view(name),
                    holder_seen: holder_seen,
                    holder: opt_chars_view(holder),
                    month_seen: month_seen,
                    month: month,
                    year_seen: year_seen,
                    year: year,
                };
                proof {
                    assert(spec_card_members(v@, cur as int, d1 as nat, acc) == spec_card_after(
                        v@,
                        j4 as int,
                        d1 as nat,
                        acc2,
                    ));
                }
                let j5 = skip_ws(v, j4);
                if j5 >= n {
                    return None;
                }
                if v[j5] == ',' {
                    let j6 = skip_ws(v, j5 + 1);
                    cur = j6;
                } else if v[j5] == '}' {
                    match number {
                        Some(u) => {
                            let e = PaymentCardJSONEntry {
                                card_number: string_from_chars(u.as_slice()),
                                card_name: opt_string_of(name),
                                cardholder_name: opt_string_of(holder),
                                card_expiration_month: month,
                                card_expiration_year: year,
                            };
                            proof {
                                assert(card_json_rec(e) =~= spec_card_finish(
                                    acc2,
                                    j5 + 1,
                                )->Some_0.0);
                            }
                            return Some((e, j5 + 1));
                        },
                        None => {
                            return None;
                        },
                    }
                } else {
                    return None;
                }
            },
        }
    }
}

/// The outcome of decoding one document. Only `Success` stands for a
/// confirmed document whose requested work was completed; every other
/// variant names the way the attempt ended.
#[derive(Clone, Copy, PartialEq, Eq, Structural, Debug)]
pub enum DecodeResult {
    /// The metadata tag was confirmed and, in extract mode, the payload
    /// array was read to its end.
    Success,
    /// The category has no metadata tag, so no document can match it.
    Unsupported,
    /// A second `metadata` member appeared.
    MultipleMetadata,
    /// The `data_type` of the metadata does not name this category.
    WrongDataType,
    /// The payload array appeared before the metadata was confirmed.
    ArrayBeforeMetadata,
    /// The object ended without the payload array.
    ArrayNotFound,
    /// The document is not well formed.
    Syntax,
}

/// One record handed to the sink: a history or a payment card record.
pub enum RecItem {
    Hist(HistRec),
    Card(CardRec),
}

/// How many compound values may nest below the document's root object.
pub const DECODE_DEPTH: u32 = 127;

/// The payload record at `i`, of the kind the category calls for.
pub open spec fn spec_parse_element(s: Seq<char>, i: int, d: nat, cat: crate::FileType) -> Option<
    (RecItem, int),
> {
    match cat {
        crate::FileType::History => match spec_parse_hist_entry(s, i, d) {
            Some((r, j)) => Some((RecItem::Hist(r), j)),
            None => None,
        },
        crate::FileType::PaymentCards => match spec_parse_card_entry(s, i, d) {
            Some((r, j)) => Some((RecItem::Card(r), j)),
            None => None,
        },
        _ => None,
    }
}

/// The elements of the payload array, the first starting at `i`: the
/// position after the closing bracket if the array is well formed, and
/// the records read before the answer — also the partial ones read
/// before a malformed element.
pub open spec fn spec_elements(s: Seq<char>, i: int, d: nat, cat: crate::FileType) -> (
    Option<int>,
    Seq<RecItem>,
)
    decreases s.len() - i,
{
    match spec_parse_element(s, i, d, cat) {
        None => (None, Seq::<RecItem>::empty()),
        Some((it, j1)) => {
            let j2 = spec_skip_ws(s, j1);
            if !(0 <= j2 < s.len()) {
                (None, seq![it])
            } else if s[j2] == ',' {
                let j3 = spec_skip_ws(s, j2 + 1);
                if i < j3 <= s.len() {
                    let rest = spec_elements(s, j3, d, cat);
                    (rest.0, seq![it] + rest.1)
                } else {
                    (None, seq![it])
                }
            } else if s[j2] == ']' {
                (Some(j2 + 1), seq![it])
            } else {
                (None, seq![it])
            }
        },
    }
}

/// The members of the document's root object, the next starting at `i`.
/// Members are visited in order: the metadata member confirms or refuses
/// the tag, the payload array member is decoded only after confirmation,
/// and any other member is read and discarded.
pub open spec fn spec_top_members(
    s: Seq<char>,
    i: int,
    d: nat,
    cat: crate::FileType,
    probe: bool,
    has_tag: bool,
) -> (DecodeResult, Seq<RecItem>)
    decreases s.len() - i, 1int,
{
    match spec_parse_string(s, i) {
        None => (DecodeResult::Syntax, Seq::<RecItem>::empty()),
        Some((key, j1)) => {
            let j2 = spec_skip_ws(s, j1);
            if !(0 <= j2 < s.len() && s[j2] == ':') {
                (DecodeResult::Syntax, Seq::<RecItem>::empty())
            } else {
                let j3 = spec_skip_ws(s, j2 + 1);
                if !(i < j3 <= s.len()) {
                    (DecodeResult::Syntax, Seq::<RecItem>::empty())
                } else if key == "metadata"@ {
                    if has_tag {
                        (DecodeResult::MultipleMetadata, Seq::<RecItem>::empty())
                    } else {
                        match spec_parse_metadata(s, j3, d) {
                            None => (DecodeResult::Syntax, Seq::<RecItem>::empty()),
                            Some((dt, j4)) => if crate::category::spec_expected_data_type(cat)
                                != Some(dt) {
                                (DecodeResult::WrongDataType, Seq::<RecItem>::empty())
                            } else if probe {
                                (DecodeResult::Success, Seq::<RecItem>::empty())
                            } else if j3 < j4 <= s.len() {
                                spec_top_after(s, j4, d, cat, probe, true)
                            } else {
                                (DecodeResult::Syntax, Seq::<RecItem>::empty())
                            },
                        }
                    }
                } else if crate::category::spec_array_token(cat) == Some(key) {
                    if !has_tag {
                        (DecodeResult::ArrayBeforeMetadata, Seq::<RecItem>::empty())
                    } else if !(j3 < s.len() && s[j3] == '[' && d > 0) {
                        (DecodeResult::Syntax, Seq::<RecItem>::empty())
                    } else {
                        let j4 = spec_skip_ws(s, j3 + 1);
                        if !(j3 < j4 <= s.len()) {
                            (DecodeResult::Syntax, Seq::<RecItem>::empty())
                        } else if j4 < s.len() && s[j4] == ']' {
                            (DecodeResult::Success, Seq::<RecItem>::empty())
                        } else {
                            let arr = spec_elements(s, j4, (d - 1) as nat, cat);
                            match arr.0 {
                                Some(_) => (DecodeResult::Success, arr.1),
                                None => (DecodeResult::Syntax, arr.1),
                            }
                        }
                    }
                } else {
                    match spec_skip_value(s, j3, d) {
                        None => (DecodeResult::Syntax, Seq::<RecItem>::empty()),
                        Some(j4) => if j3 < j4 <= s.len() {
                            spec_top_after(s, j4, d, cat, probe, has_tag)
                        } else {
                            (DecodeResult::Syntax, Seq::<RecItem>::empty())
                        },
                    }
                }
            }
        },
    }
}

/// What follows a root member: another member after a comma, or the end
/// of the object, which means the payload array never appeared.
pub open spec fn spec_top_after(
    s: Seq<char>,
    i: int,
    d: nat,
    cat: crate::FileType,
    probe: bool,
    has_tag: bool,
) -> (DecodeResult, Seq<RecItem>)
    decreases s.len() - i, 0int,
{
    let j5 = spec_skip_ws(s, i);
    if !(i <= j5 < s.len()) {
        (DecodeResult::Syntax, Seq::<RecItem>::empty())
    } else if s[j5] == ',' {
        let j6 = spec_skip_ws(s, j5 + 1);
        if i < j6 <= s.len() {
            spec_top_members(s, j6, d, cat, probe, has_tag)
        } else {
            (DecodeResult::Syntax, Seq::<RecItem>::empty())
        }
    } else if s[j5] == '}' {
        (DecodeResult::ArrayNotFound, Seq::<RecItem>::empty())
    } else {
        (DecodeResult::Syntax, Seq::<RecItem>::empty())
    }
}

/// The outcome of decoding the document `s` for the category `cat`, and
/// the records handed to the sink along the way. In probe mode the
/// decoding stops at the confirmed metadata tag; in extract mode it
/// stops after the payload array, ignoring the rest of the document.
pub open spec fn spec_decode(s: Seq<char>, cat: crate::FileType, probe: bool) -> (
    DecodeResult,
    Seq<RecItem>,
) {
    if crate::category::spec_expected_data_type(cat) is None {
        (DecodeResult::Unsupported, Seq::<RecItem>::empty())
    } else {
        let j = spec_skip_ws(s, 0);
        if !(0 <= j < s.len() && s[j] == '{') {
            (DecodeResult::Syntax, Seq::<RecItem>::empty())
        } else {
            let b = spec_skip_ws(s, j + 1);
            if !(j < b <= s.len()) {
                (DecodeResult::Syntax, Seq::<RecItem>::empty())
            } else if b < s.len() && s[b] == '}' {
                (DecodeResult::ArrayNotFound, Seq::<RecItem>::empty())
            } else {
                spec_top_members(s, b, DECODE_DEPTH as nat, cat, probe, false)
            }
        }
    }
}

/// A strict history record carrying the bare values of a permissive one,
/// with the absent title defaulted.
pub open spec fn spec_hist_out(e: crate::records::HistoryEntry, h: HistRec) -> bool {
    &&& e.url@ == h.url
    &&& e.title@ == (match h.title {
        Some(t) => t,
        None => Seq::<char>::empty(),
    })
    &&& e.time_usec == h.time_usec
    &&& e.visit_count == h.visit_count
}

/// A strict payment card record carrying the bare values of a permissive
/// one, with absent fields defaulted.
pub open spec fn spec_card_out(e: crate::records::PaymentCardEntry, c: CardRec) -> bool {
    &&& e.card_number@ == c.card_number
    &&& e.card_name@ == (match c.card_name {
        Some(t) => t,
        None => Seq::<char>::empty(),
    })
    &&& e.cardholder_name@ == (match c.cardholder_name {
        Some(t) => t,
        None => Seq::<char>::empty(),
    })
    &&& e.card_expiration_month == (match c.card_expiration_month {
        Some(u) => u,
        None => 0u64,
    })
    &&& e.card_expiration_year == (match c.card_expiration_year {
        Some(u) => u,
        None => 0u64,
    })
}

/// The sink `new` extends `old` by exactly the strict forms of `items`.
pub open spec fn spec_hist_sink_extended(
    old: Seq<crate::records::HistoryEntry>,
    new: Seq<crate::records::HistoryEntry>,
    items: Seq<RecItem>,
) -> bool {
    &&& new.len() == old.len() + items.len()
    &&& forall|k: int| 0 <= k < old.len() ==> new[k] == #[trigger] old[k]
    &&& forall|k: int|
        0 <= k < items.len() ==> (#[trigger] items[k] matches RecItem::Hist(h) && spec_hist_out(
            new[old.len() + k],
            h,
        ))
}

/// The sink `new` extends `old` by exactly the strict forms of `items`.
pub open spec fn spec_card_sink_extended(
    old: Seq<crate::records::PaymentCardEntry>,
    new: Seq<crate::records::PaymentCardEntry>,
    items: Seq<RecItem>,
) -> bool {
    &&& new.len() == old.len() + items.len()
    &&& forall|k: int| 0 <= k < old.len() ==> new[k] == #[trigger] old[k]
    &&& forall|k: int|
        0 <= k < items.len() ==> (#[trigger] items[k] matches RecItem::Card(c) && spec_card_out(
            new[old.len() + k],
            c,
        ))
}

/// Decodes one history document: in probe mode the tag is confirmed and
/// nothing more; in extract mode every record of the payload array is
/// appended to `out` as it is read, and records read before a failure
/// stay appended.
pub fn decode_history(
    v: &Vec<char>,
    probe: bool,
    out: &mut Vec<crate::records::HistoryEntry>,
) -> (r: DecodeResult)
    ensures
        r == spec_decode(v@, crate::FileType::History, probe).0,
        spec_hist_sink_extended(
            old(out)@,
            final(out)@,
            spec_decode(v@, crate::FileType::History, probe).1,
        ),
{
    let n = v.len();
    let j = skip_ws(v, 0);
    if j >= n || v[j] != '{' {
        return DecodeResult::Syntax;
    }
    let b = skip_ws(v, j + 1);
    if b < n && v[b] == '}' {
        return DecodeResult::ArrayNotFound;
    }
    let mut has_tag = false;
    let mut cur: usize = b;
    loop
        invariant
            b <= cur <= n,
            n == v@.len(),
            out@ == old(out)@,
            spec_decode(v@, crate::FileType::History, probe) == spec_top_members(
                v@,
                cur as int,
                DECODE_DEPTH as nat,
                crate::FileType::History,
                probe,
                has_tag,
            ),
        decreases n - cur,
    {
        let ghost tag0 = has_tag;
        match parse_string(v, cur) {
            None => {
                return DecodeResult::Syntax;
            },
            Some((key, j1)) => {
                let j2 = skip_ws(v, j1);
                if j2 >= n || v[j2] != ':' {
                    return DecodeResult::Syntax;
                }
                let j3 = skip_ws(v, j2 + 1);
                let j4: usize;
                if crate::text::chars_eq(&key, &crate::text::chars_of("metadata")) {
                    if has_tag {
                        return DecodeResult::MultipleMetadata;
                    }
                    match parse_metadata(v, j3, DECODE_DEPTH) {
                        None => {
                            return DecodeResult::Syntax;
                        },
                        Some((dt, jm)) => {
                            if !crate::text::chars_eq(&dt, &crate::text::chars_of("history")) {
                                return DecodeResult::WrongDataType;
                            }
                            if probe {
                                return DecodeResult::Success;
                            }
                            has_tag = true;
                            j4 = jm;
                        },
                    }
                } else if crate::text::chars_eq(&key, &crate::text::chars_of("history")) {
                    if !has_tag {
                        return DecodeResult::ArrayBeforeMetadata;
                    }
                    if j3 >= n || v[j3] != '[' {
                        return DecodeResult::Syntax;
                    }
                    let ja = skip_ws(v, j3 + 1);
                    if ja < n && v[ja] == ']' {
                        return DecodeResult::Success;
                    }
                    let ghost earr = spec_elements(
                        v@,
                        ja as int,
                        (DECODE_DEPTH - 1) as nat,
                        crate::FileType::History,
                    );
                    let ghost base = out@;
                    let ghost mut gitems: Seq<RecItem> = Seq::empty();
                    let mut ecur: usize = ja;
                    proof {
                        assert(gitems + earr.1 =~= earr.1);
                    }
                    loop
                        invariant
                            ja <= ecur <= n,
                            n == v@.len(),
                            base == old(out)@,
                            earr == spec_elements(
                                v@,
                                ja as int,
                                (DECODE_DEPTH - 1) as nat,
                                crate::FileType::History,
                            ),
                            spec_decode(v@, crate::FileType::History, probe) == (match earr.0 {
                                Some(_) => (DecodeResult::Success, earr.1),
                                None => (DecodeResult::Syntax, earr.1),
                            }),
                            out@.len() == base.len() + gitems.len(),
                            forall|k: int| 0 <= k < base.len() ==> out@[k] == #[trigger] base[k],
                            forall|k: int|
                                0 <= k < gitems.len() ==> (#[trigger] gitems[k] matches
                                    RecItem::Hist(h) && spec_hist_out(out@[base.len() + k], h)),
                            earr.0 == spec_elements(
                                v@,
                                ecur as int,
                                (DECODE_DEPTH - 1) as nat,
                                crate::FileType::History,
                            ).0,
                            earr.1 == gitems + spec_elements(
                                v@,
                                ecur as int,
                                (DECODE_DEPTH - 1) as nat,
                                crate::FileType::History,
                            ).1,
                        decreases n - ecur,
                    {
                        let ghost erest = spec_elements(
                            v@,
                            ecur as int,
                            (DECODE_DEPTH - 1) as nat,
                            crate::FileType::History,
                        );
                        match parse_hist_entry(v, ecur, DECODE_DEPTH - 1) {
                            None => {
                                proof {
                                    assert(earr.1 =~= gitems);
                                }
                                return DecodeResult::Syntax;
                            },
                            Some((e, j1e)) => {
                                let ghost it = RecItem::Hist(hist_json_rec(e));
                                let he = crate::records::HistoryEntry::from(e);
                                out.push(he);
                                let ghost gold = gitems;
                                proof {
                                    gitems = gitems.push(it);
                                }
                                let j2e = skip_ws(v, j1e);
                                if j2e >= n {
                                    proof {
                                        assert(erest.1 == seq![it]);
                                        assert(earr.1 =~= gitems);
                                    }
                                    return DecodeResult::Syntax;
                                }
                                if v[j2e] == ',' {
                                    let j3e = skip_ws(v, j2e + 1);
                                    proof {
                                        let enext = spec_elements(
                                            v@,
                                            j3e as int,
                                            (DECODE_DEPTH - 1) as nat,
                                            crate::FileType::History,
                                        );
                                        assert(erest == (enext.0, seq![it] + enext.1));
                                        assert(gold + (seq![it] + enext.1) =~= gitems + enext.1);
                                    }
                                    ecur = j3e;
                                } else if v[j2e] == ']' {
                                    proof {
                                        assert(erest == (Some(j2e + 1 as int), seq![it]));
                                        assert(earr.1 =~= gitems);
                                    }
                                    return DecodeResult::Success;
                                } else {
                                    proof {
                                        assert(erest.1 == seq![it]);
                                        assert(earr.1 =~= gitems);
                                    }
                                    return DecodeResult::Syntax;
                                }
                            },
                        }
                    }
                } else {
                    match skip_value(v, j3, DECODE_DEPTH) {
                        None => {
                            return DecodeResult::Syntax;
                        },
                        Some(jj) => {
                            j4 = jj;
                        },
                    }
                }
                proof {
                    assert(spec_top_members(
                        v@,
                        cur as int,
                        DECODE_DEPTH as nat,
                        crate::FileType::History,
                        probe,
                        tag0,
                    ) == spec_top_after(
                        v@,
                        j4 as int,
                        DECODE_DEPTH as nat,
                        crate::FileType::History,
                        probe,
                        has_tag,
                    ));
                }
                let j5 = skip_ws(v, j4);
                if j5 >= n {
                    return DecodeResult::Syntax;
                }
                if v[j5] == ',' {
                    let j6 = skip_ws(v, j5 + 1);
                    cur = j6;
                } else if v[j5] == '}' {
                    return DecodeResult::ArrayNotFound;
                } else {
                    return DecodeResult::Syntax;
                }
            },
        }
    }
}

/// Decodes one payment cards document: in probe mode the tag is
/// confirmed and nothing more; in extract mode every record of the
/// payload array is appended to `out` as it is read, and records read
/// before a failure stay appended.
pub fn decode_payment_cards(
    v: &Vec<char>,
    probe: bool,
    out: &mut Vec<crate::records::PaymentCardEntry>,
) -> (r: DecodeResult)
    ensures
        r == spec_decode(v@, crate::FileType::PaymentCards, probe).0,
        spec_card_sink_extended(
            old(out)@,
            final(out)@,
            spec_decode(v@, crate::FileType::PaymentCards, probe).1,
        ),
{
    let n = v.len();
    let j = skip_ws(v, 0);
    if j >= n || v[j] != '{' {
        return DecodeResult::Syntax;
    }
    let b = skip_ws(v, j + 1);
    if b < n && v[b] == '}' {
        return DecodeResult::ArrayNotFound;
    }
    let mut has_tag = false;
    let mut cur: usize = b;
    loop
        invariant
            b <= cur <= n,
            n == v@.len(),
            out@ == old(out)@,
            spec_decode(v@, crate::FileType::PaymentCards, probe) == spec_top_members(
                v@,
                cur as int,
                DECODE_DEPTH as nat,
                crate::FileType::PaymentCards,
                probe,
                has_tag,
            ),
        decreases n - cur,
    {
        let ghost tag0 = has_tag;
        match parse_string(v, cur) {
            None => {
                return DecodeResult::Syntax;
            },
            Some((key, j1)) => {
                let j2 = skip_ws(v, j1);
                if j2 >= n || v[j2] != ':' {
                    return DecodeResult::Syntax;
                }
                let j3 = skip_ws(v, j2 + 1);
                let j4: usize;
                if crate::text::chars_eq(&key, &crate::text::chars_of("metadata")) {
                    if has_tag {
                        return DecodeResult::MultipleMetadata;
                    }
                    match parse_metadata(v, j3, DECODE_DEPTH) {
                        None => {
                            return DecodeResult::Syntax;
                        },
                        Some((dt, jm)) => {
                            if !crate::text::chars_eq(&dt, &crate::text::chars_of("payment_cards"))
                                {
                                return DecodeResult::WrongDataType;
                            }
                            if probe {
                                return DecodeResult::Success;
                            }
                            has_tag = true;
                            j4 = jm;
                        },
                    }
                } else if crate::text::chars_eq(&key, &crate::text::chars_of("payment_cards")) {
                    if !has_tag {
                        return DecodeResult::ArrayBeforeMetadata;
                    }
                    if j3 >= n || v[j3] != '[' {
                        return DecodeResult::Syntax;
                    }
                    let ja = skip_ws(v, j3 + 1);
                    if ja < n && v[ja] == ']' {
                        return DecodeResult::Success;
                    }
                    let ghost earr = spec_elements(
                        v@,
                        ja as int,
                        (DECODE_DEPTH - 1) as nat,
                        crate::FileType::PaymentCards,
                    );
                    let ghost base = out@;
                    let ghost mut gitems: Seq<RecItem> = Seq::empty();
                    let mut ecur: usize = ja;
                    proof {
                        assert(gitems + earr.1 =~= earr.1);
                    }
                    loop
                        invariant
                            ja <= ecur <= n,
                            n == v@.len(),
                            base == old(out)@,
                            earr == spec_elements(
                                v@,
                                ja as int,
                                (DECODE_DEPTH - 1) as nat,
                                crate::FileType::PaymentCards,
                            ),
                            spec_decode(v@, crate::FileType::PaymentCards, probe) == (
                            match earr.0 {
                                Some(_) => (DecodeResult::Success, earr.1),
                                None => (DecodeResult::Syntax, earr.1),
                            }),
                            out@.len() == base.len() + gitems.len(),
                            forall|k: int| 0 <= k < base.len() ==> out@[k] == #[trigger] base[k],
                            forall|k: int|
                                0 <= k < gitems.len() ==> (#[trigger] gitems[k] matches
                                    RecItem::Card(c) && spec_card_out(out@[base.len() + k], c)),
                            earr.0 == spec_elements(
                                v@,
                                ecur as int,
                                (DECODE_DEPTH - 1) as nat,
                                crate::FileType::PaymentCards,
                            ).0,
                            earr.1 == gitems + spec_elements(
                                v@,
                                ecur as int,
                                (DECODE_DEPTH - 1) as nat,
                                crate::FileType::PaymentCards,
                            ).1,
                        decreases n - ecur,
                    {
                        let ghost erest = spec_elements(
                            v@,
                            ecur as int,
                            (DECODE_DEPTH - 1) as nat,
                            crate::FileType::PaymentCards,
                        );
                        match parse_card_entry(v, ecur, DECODE_DEPTH - 1) {
                            None => {
                                proof {
                                    assert(earr.1 =~= gitems);
                                }
                                return DecodeResult::Syntax;
                            },
                            Some((e, j1e)) => {
                                let ghost it = RecItem::Card(card_json_rec(e));
                                let ce = crate::records::PaymentCardEntry::from(e);
                                out.push(ce);
                                let ghost gold = gitems;
                                proof {
                                    gitems = gitems.push(it);
                                }
                                let j2e = skip_ws(v, j1e);
                                if j2e >= n {
                                    proof {
                                        assert(erest.1 == seq![it]);
                                        assert(earr.1 =~= gitems);
                                    }
                                    return DecodeResult::Syntax;
                                }
                                if v[j2e] == ',' {
                                    let j3e = skip_ws(v, j2e + 1);
                                    proof {
                                        let enext = spec_elements(
                                            v@,
                                            j3e as int,
                                            (DECODE_DEPTH - 1) as nat,
                                            crate::FileType::PaymentCards,
                                        );
                                        assert(erest == (enext.0, seq![it] + enext.1));
                                        assert(gold + (seq![it] + enext.1) =~= gitems + enext.1);
                                    }
                                    ecur = j3e;
                                } else if v[j2e] == ']' {
                                    proof {
                                        assert(erest == (Some(j2e + 1 as int), seq![it]));
                                        assert(earr.1 =~= gitems);
                                    }
                                    return DecodeResult::Success;
                                } else {
                                    proof {
                                        assert(erest.1 == seq![it]);
                                        assert(earr.1 =~= gitems);
                                    }
                                    return DecodeResult::Syntax;
                                }
                            },
                        }
                    }
                } else {
                    match skip_value(v, j3, DECODE_DEPTH) {
                        None => {
                            return DecodeResult::Syntax;
                        },
                        Some(jj) => {
                            j4 = jj;
                        },
                    }
                }
                proof {
                    assert(spec_top_members(
                        v@,
                        cur as int,
                        DECODE_DEPTH as nat,
                        crate::FileType::PaymentCards,
                        probe,
                        tag0,
                    ) == spec_top_after(
                        v@,
                        j4 as int,
                        DECODE_DEPTH as nat,
                        crate::FileType::PaymentCards,
                        probe,
                        has_tag,
                    ));
                }
                let j5 = skip_ws(v, j4);
                if j5 >= n {
                    return DecodeResult::Syntax;
                }
                if v[j5] == ',' {
                    let j6 = skip_ws(v, j5 + 1);
                    cur = j6;
                } else if v[j5] == '}' {
                    return DecodeResult::ArrayNotFound;
                } else {
                    return DecodeResult::Syntax;
                }
            },
        }
    }
}

/// Probes one document: confirms that its metadata tag names the given
/// category, decoding no further. No sink takes part: probing can hand
/// out no record, however large the payload array is.
pub fn probe_document(v: &Vec<char>, file_type: crate::FileType) -> (r: DecodeResult)
    ensures
        r == spec_decode(v@, file_type, true).0,
{
    match file_type {
        crate::FileType::History => {
            let mut sink: Vec<crate::records::HistoryEntry> = Vec::new();
            decode_history(v, true, &mut sink)
        },
        crate::FileType::PaymentCards => {
            let mut sink: Vec<crate::records::PaymentCardEntry> = Vec::new();
            decode_payment_cards(v, true, &mut sink)
        },
        _ => DecodeResult::Unsupported,
    }
}

/// Attempts to parse the history document. Returns whether parsing was
/// successful; the records read before the answer stay in `out` either
/// way.
pub fn parse_history_file(content: &str, out: &mut Vec<crate::records::HistoryEntry>) -> (r: bool)
    ensures
        r == (spec_decode(content@, crate::FileType::History, false).0 == DecodeResult::Success),
        spec_hist_sink_extended(
            old(out)@,
            final(out)@,
            spec_decode(content@, crate::FileType::History, false).1,
        ),
{
    let cv = crate::text::chars_of(content);
    let res = decode_history(&cv, false, out);
    res == DecodeResult::Success
}

/// Returns whether the document is a history document: its metadata tag
/// names the history category.
pub fn is_history_file(content: &str) -> (r: bool)
    ensures
        r == (spec_decode(content@, crate::FileType::History, true).0 == DecodeResult::Success),
{
    let cv = crate::text::chars_of(content);
    let res = probe_document(&cv, crate::FileType::History);
    res == DecodeResult::Success
}

/// Attempts to parse the payment cards document. Returns whether parsing
/// was successful; the records read before the answer stay in `out`
/// either way.
pub fn parse_payment_cards_file(
    content: &str,
    out: &mut Vec<crate::records::PaymentCardEntry>,
) -> (r: bool)
    ensures
        r == (spec_decode(content@, crate::FileType::PaymentCards, false).0
            == DecodeResult::Success),
        spec_card_sink_extended(
            old(out)@,
            final(out)@,
            spec_decode(content@, crate::FileType::PaymentCards, false).1,
        ),
{
    let cv = crate::text::chars_of(content);
    let res = decode_payment_cards(&cv, false, out);
    res == DecodeResult::Success
}

/// Returns whether the document is a payment cards document: its
/// metadata tag names the payment cards category.
pub fn is_payment_cards_file(content: &str) -> (r: bool)
    ensures
        r == (spec_decode(content@, crate::FileType::PaymentCards, true).0
            == DecodeResult::Success),
{
    let cv = crate::text::chars_of(content);
    let res = probe_document(&cv, crate::FileType::PaymentCards);
    res == DecodeResult::Success
}

proof fn lemma_probe_members_empty(s: Seq<char>, i: int, d: nat, cat: crate::FileType)
    ensures
        spec_top_members(s, i, d, cat, true, false).1 == Seq::<RecItem>::empty(),
    decreases s.len() - i, 1int,
{
    if spec_parse_string(s, i) is Some {
        let (key, j1) = spec_parse_string(s, i)->Some_0;
        let j2 = spec_skip_ws(s, j1);
        if 0 <= j2 < s.len() && s[j2] == ':' {
            let j3 = spec_skip_ws(s, j2 + 1);
            if i < j3 <= s.len() && !(key == "metadata"@) && crate::category::spec_array_token(cat)
                != Some(key) {
                if spec_skip_value(s, j3, d) is Some {
                    let j4 = spec_skip_value(s, j3, d)->Some_0;
                    if j3 < j4 <= s.len() {
                        lemma_probe_after_empty(s, j4, d, cat);
                    }
                }
            }
        }
    }
}

proof fn lemma_probe_after_empty(s: Seq<char>, i: int, d: nat, cat: crate::FileType)
    ensures
        spec_top_after(s, i, d, cat, true, false).1 == Seq::<RecItem>::empty(),
    decreases s.len() - i, 0int,
{
    let j5 = spec_skip_ws(s, i);
    if i <= j5 < s.len() && s[j5] == ',' {
        let j6 = spec_skip_ws(s, j5 + 1);
        if i < j6 <= s.len() {
            lemma_probe_members_empty(s, j6, d, cat);
        }
    }
}

/// A probe hands out no record, whatever the document holds: in probe
/// mode the payload array is never decoded, so nothing ever reaches a
/// sink.
pub proof fn lemma_probe_emits_nothing(s: Seq<char>, cat: crate::FileType)
    ensures
        spec_decode(s, cat, true).1 == Seq::<RecItem>::empty(),
{
    if crate::category::spec_expected_data_type(cat) is Some {
        let j = spec_skip_ws(s, 0);
        if 0 <= j < s.len() && s[j] == '{' {
            let b = spec_skip_ws(s, j + 1);
            if j < b <= s.len() && !(b < s.len() && s[b] == '}') {
                lemma_probe_members_empty(s, b, DECODE_DEPTH as nat, cat);
            }
        }
    }
}

proof fn lemma_tagged_members_no_gate_errors(s: Seq<char>, i: int, d: nat, cat: crate::FileType)
    ensures
        spec_top_members(s, i, d, cat, false, true).0 != DecodeResult::WrongDataType,
        spec_top_members(s, i, d, cat, false, true).0 != DecodeResult::ArrayBeforeMetadata,
        spec_top_members(s, i, d, cat, false, true).0 != DecodeResult::Unsupported,
    decreases s.len() - i, 1int,
{
    if spec_parse_string(s, i) is Some {
        let (key, j1) = spec_parse_string(s, i)->Some_0;
        let j2 = spec_skip_ws(s, j1);
        if 0 <= j2 < s.len() && s[j2] == ':' {
            let j3 = spec_skip_ws(s, j2 + 1);
            if i < j3 <= s.len() && !(key == "metadata"@) && crate::category::spec_array_token(cat)
                != Some(key) {
                if spec_skip_value(s, j3, d) is Some {
                    let j4 = spec_skip_value(s, j3, d)->Some_0;
                    if j3 < j4 <= s.len() {
                        lemma_tagged_after_no_gate_errors(s, j4, d, cat);
                    }
                }
            }
        }
    }
}

proof fn lemma_tagged_after_no_gate_errors(s: Seq<char>, i: int, d: nat, cat: crate::FileType)
    ensures
        spec_top_after(s, i, d, cat, false, true).0 != DecodeResult::WrongDataType,
        spec_top_after(s, i, d, cat, false, true).0 != DecodeResult::ArrayBeforeMetadata,
        spec_top_after(s, i, d, cat, false, true).0 != DecodeResult::Unsupported,
    decreases s.len() - i, 0int,
{
    let j5 = spec_skip_ws(s, i);
    if i <= j5 < s.len() && s[j5] == ',' {
        let j6 = spec_skip_ws(s, j5 + 1);
        if i < j6 <= s.len() {
            lemma_tagged_members_no_gate_errors(s, j6, d, cat);
        }
    }
}

proof fn lemma_probe_extract_members(s: Seq<char>, i: int, d: nat, cat: crate::FileType)
    requires
        spec_top_members(s, i, d, cat, true, false).0 == DecodeResult::Success,
    ensures
        spec_top_members(s, i, d, cat, false, false).0 != DecodeResult::WrongDataType,
        spec_top_members(s, i, d, cat, false, false).0 != DecodeResult::ArrayBeforeMetadata,
        spec_top_members(s, i, d, cat, false, false).0 != DecodeResult::Unsupported,
    decreases s.len() - i, 1int,
{
    let (key, j1) = spec_parse_string(s, i)->Some_0;
    let j2 = spec_skip_ws(s, j1);
    let j3 = spec_skip_ws(s, j2 + 1);
    if key == "metadata"@ {
        let (dt, j4) = spec_parse_metadata(s, j3, d)->Some_0;
        if j3 < j4 <= s.len() {
            lemma_tagged_after_no_gate_errors(s, j4, d, cat);
        }
    } else {
        let j4 = spec_skip_value(s, j3, d)->Some_0;
        lemma_probe_extract_after(s, j4, d, cat);
    }
}

proof fn lemma_probe_extract_after(s: Seq<char>, i: int, d: nat, cat: crate::FileType)
    requires
        spec_top_after(s, i, d, cat, true, false).0 == DecodeResult::Success,
    ensures
        spec_top_after(s, i, d, cat, false, false).0 != DecodeResult::WrongDataType,
        spec_top_after(s, i, d, cat, false, false).0 != DecodeResult::ArrayBeforeMetadata,
        spec_top_after(s, i, d, cat, false, false).0 != DecodeResult::Unsupported,
    decreases s.len() - i, 0int,
{
    let j5 = spec_skip_ws(s, i);
    let j6 = spec_skip_ws(s, j5 + 1);
    lemma_probe_extract_members(s, j6, d, cat);
}

/// The two modes judge the metadata alike: once probing succeeds,
/// extraction cannot end with a tag mismatch, an out-of-order payload
/// array, or a missing tag; what remains open to it are the later
/// failures, such as a payload that is malformed or absent.
pub proof fn lemma_probe_extract_consistent(s: Seq<char>, cat: crate::FileType)
    requires
        spec_decode(s, cat, true).0 == DecodeResult::Success,
    ensures
        spec_decode(s, cat, false).0 != DecodeResult::WrongDataType,
        spec_decode(s, cat, false).0 != DecodeResult::ArrayBeforeMetadata,
        spec_decode(s, cat, false).0 != DecodeResult::Unsupported,
{
    let j = spec_skip_ws(s, 0);
    let b = spec_skip_ws(s, j + 1);
    lemma_probe_extract_members(s, b, DECODE_DEPTH as nat, cat);
}

proof fn lemma_tag_exclusive_members(
    s: Seq<char>,
    i: int,
    d: nat,
    cat1: crate::FileType,
    cat2: crate::FileType,
)
    requires
        spec_top_members(s, i, d, cat1, true, false).0 == DecodeResult::Success,
        crate::category::spec_expected_data_type(cat1) != crate::category::spec_expected_data_type(
            cat2,
        ),
        crate::category::spec_expected_data_type(cat2) is Some,
    ensures
        spec_top_members(s, i, d, cat2, true, false).0 != DecodeResult::Success,
    decreases s.len() - i,
{
    let (key, j1) = spec_parse_string(s, i)->Some_0;
    let j2 = spec_skip_ws(s, j1);
    let j3 = spec_skip_ws(s, j2 + 1);
    if key == "metadata"@ {
    } else {
        if crate::category::spec_array_token(cat2) == Some(key) {
        } else {
            let j4 = spec_skip_value(s, j3, d)->Some_0;
            let j5 = spec_skip_ws(s, j4);
            let j6 = spec_skip_ws(s, j5 + 1);
            lemma_tag_exclusive_members(s, j6, d, cat1, cat2);
        }
    }
}

/// The metadata tag is exclusive: a document that probe mode confirms
/// for one category is never confirmed for a category with a different
/// tag — whatever the file's extension said.
pub proof fn lemma_tag_exclusive(s: Seq<char>, cat1: crate::FileType, cat2: crate::FileType)
    requires
        spec_decode(s, cat1, true).0 == DecodeResult::Success,
        crate::category::spec_expected_data_type(cat1) != crate::category::spec_expected_data_type(
            cat2,
        ),
    ensures
        spec_decode(s, cat2, true).0 != DecodeResult::Success,
{
    if crate::category::spec_expected_data_type(cat2) is Some {
        let j = spec_skip_ws(s, 0);
        let b = spec_skip_ws(s, j + 1);
        lemma_tag_exclusive_members(s, b, DECODE_DEPTH as nat, cat1, cat2);
    }
}

} // verus!
