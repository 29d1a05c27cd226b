//! The records that an export archive carries: the permissive shapes
//! found in the JSON documents, and the strict shapes handed onward,
//! with absent optional fields replaced by fixed defaults.

use vstd::prelude::*;

verus! {

/// A browsing history record as the export's JSON document holds it:
/// the title may be absent.
pub struct HistoryJSONEntry {
    /// The URL of the history item.
    pub url: String,
    /// The title of the history item, if present.
    pub title: Option<String>,
    /// The UNIX timestamp in microseconds of the latest visit to the item.
    pub time_usec: u64,
    /// The number of visits the browser made to this item.
    pub visit_count: u64,
}

/// A payment card record as the export's JSON document holds it: only
/// the card number is required.
pub struct PaymentCardJSONEntry {
    /// The payment card number.
    pub card_number: String,
    /// The name the person gave to the payment card, if present.
    pub card_name: Option<String>,
    /// The name of the cardholder, if present.
    pub cardholder_name: Option<String>,
    /// The month of the card's expiration date, if present.
    pub card_expiration_month: Option<u64>,
    /// The year of the card's expiration date, if present.
    pub card_expiration_year: Option<u64>,
}

/// A browsing history record with every field present.
pub struct HistoryEntry {
    pub url: String,
    pub title: String,
    pub time_usec: u64,
    pub visit_count: u64,
}

/// A payment card record with every field present.
pub struct PaymentCardEntry {
    pub card_number: String,
    pub card_name: String,
    pub cardholder_name: String,
    pub card_expiration_month: u64,
    pub card_expiration_year: u64,
}

/// The characters held by an optional string, where absence maps to the
/// empty sequence.
pub open spec fn spec_opt_text(o: Option<String>) -> Seq<char> {
    match o {
        Some(s) => s@,
        None => Seq::<char>::empty(),
    }
}

/// The value held by an optional count, where absence maps to zero.
pub open spec fn spec_opt_count(o: Option<u64>) -> u64 {
    match o {
        Some(u) => u,
        None => 0,
    }
}

impl HistoryEntry {
    /// The strict record of a permissive one: an absent title becomes
    /// the empty string.
    pub fn from(entry: HistoryJSONEntry) -> (r: HistoryEntry)
        ensures
            r.url == entry.url,
            r.title@ == spec_opt_text(entry.title),
            r.time_usec == entry.time_usec,
            r.visit_count == entry.visit_count,
    {
        HistoryEntry {
            url: entry.url,
            title: match entry.title {
                Some(t) => t,
                None => String::new(),
            },
            time_usec: entry.time_usec,
            visit_count: entry.visit_count,
        }
    }
}

impl PaymentCardEntry {
    /// The strict record of a permissive one: absent names become the
    /// empty string and absent date parts become zero.
    pub fn from(entry: PaymentCardJSONEntry) -> (r: PaymentCardEntry)
        ensures
            r.card_number == entry.card_number,
            r.card_name@ == spec_opt_text(entry.card_name),
            r.cardholder_name@ == spec_opt_text(entry.cardholder_name),
            r.card_expiration_month == spec_opt_count(entry.card_expiration_month),
            r.card_expiration_year == spec_opt_count(entry.card_expiration_year),
    {
        PaymentCardEntry {
            card_number: entry.card_number,
            card_name: match entry.card_name {
                Some(t) => t,
                None => String::new(),
            },
            cardholder_name: match entry.cardholder_name {
                Some(t) => t,
                None => String::new(),
            },
            card_expiration_month: match entry.card_expiration_month {
                Some(u) => u,
                None => 0,
            },
            card_expiration_year: match entry.card_expiration_year {
                Some(u) => u,
                None => 0,
            },
        }
    }
}

} // verus!
