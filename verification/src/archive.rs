//! The archive import facade: one opened zip archive, scanned entry by
//! entry for the requested category, and the single-use wrapper that
//! carries the outcome of opening one across a boundary that cannot
//! express it.
//!
//! A deliberate decision on I/O shape: the archive lives in memory, and
//! an entry under examination is decompressed whole as text before the
//! decoder runs — the early abort that bounds the *decoding* to the
//! bytes needed for the answer does not bound the *reading*. An entry
//! whose bytes after a confirmable metadata member fail to decompress
//! or are not UTF-8 is therefore unreadable here as a whole, and is
//! skipped where an incremental reader could still have confirmed it;
//! per-entry memory is bounded by the entry's size, not by a fixed
//! read-ahead buffer.

use vstd::prelude::*;
use std::io::Read;
use crate::FileType;
use crate::category::{has_extension, spec_has_extension};
use crate::decoder::{spec_decode, spec_hist_sink_extended, spec_card_sink_extended, DecodeResult,
    RecItem, probe_document, parse_history_file, parse_payment_cards_file};
use crate::records::{HistoryEntry, PaymentCardEntry};

verus! {

#[verifier::external_type_specification]
#[verifier::external_body]
#[verifier::reject_recursive_types(R)]
pub struct ExZipArchive<R>(zip::ZipArchive<R>);

#[verifier::external_type_specification]
#[verifier::external_body]
#[verifier::reject_recursive_types(T)]
pub struct ExCursor<T>(std::io::Cursor<T>);

/// The entries the archive holds, by index: each accessible entry's
/// sanitized path and decompressed size, `None` where the entry cannot
/// be addressed or its path resolves outside the archive.
pub uninterp spec fn zip_entry_list(a: zip::ZipArchive<std::io::Cursor<Vec<u8>>>) -> Seq<
    Option<(Seq<char>, u64)>,
>;

/// The decompressed text of the entry at one index, `None` where the
/// entry cannot be read whole as text.
pub uninterp spec fn zip_entry_text(
    a: zip::ZipArchive<std::io::Cursor<Vec<u8>>>,
    i: int,
) -> Option<Seq<char>>;

/// An opened export archive, backed by bytes held in memory; owned by
/// one import session.
pub struct ZipFileArchive {
    archive: zip::ZipArchive<std::io::Cursor<Vec<u8>>>,
}

impl ZipFileArchive {
    /// The entries this archive holds, by index.
    pub closed spec fn entries(self) -> Seq<Option<(Seq<char>, u64)>> {
        zip_entry_list(self.archive)
    }

    /// The text of the entry at `i`, where it can be read as text.
    pub closed spec fn entry_text(self, i: int) -> Option<Seq<char>> {
        zip_entry_text(self.archive, i)
    }

    /// Relies on `zip::ZipArchive::len`: the number of entries the
    /// archive holds.
    #[verifier::external_body]
    fn entry_count(&self) -> (r: usize)
        ensures
            r == zip_entry_list(self.archive).len(),
            r == self.entries().len(),
    {
        self.archive.len()
    }

    /// Relies on `zip::ZipArchive::by_index`, `ZipFile::enclosed_name`
    /// and `ZipFile::size`: the sanitized path and decompressed size of
    /// the entry at `i`; reading moves no entry and changes none.
    #[verifier::external_body]
    fn entry_meta(&mut self, i: usize) -> (r: Option<(String, u64)>)
        requires
            i < old(self).entries().len(),
        ensures
            zip_entry_list(final(self).archive) == zip_entry_list(old(self).archive),
            forall|k: int|
                zip_entry_text(final(self).archive, k) == zip_entry_text(old(self).archive, k),
            match r {
                Some((p, sz)) => zip_entry_list(old(self).archive)[i as int] == Some((p@, sz)),
                None => zip_entry_list(old(self).archive)[i as int] is None,
            },
    {
        match self.archive.by_index(i) {
            Ok(file) => {
                let size = file.size();
                match file.enclosed_name() {
                    Some(path) => match path.to_str() {
                        Some(s) => Some((s.to_string(), size)),
                        None => None,
                    },
                    None => None,
                }
            },
            Err(_) => None,
        }
    }

    /// Relies on `zip::ZipArchive::by_index` and `Read::read_to_string`
    /// over the decompressing entry reader: the whole entry as text, so
    /// an entry that fails to decompress or decode anywhere yields
    /// `None` as a whole; reading moves no entry and changes none.
    #[verifier::external_body]
    fn read_entry_text(&mut self, i: usize) -> (r: Option<String>)
        requires
            i < old(self).entries().len(),
        ensures
            zip_entry_list(final(self).archive) == zip_entry_list(old(self).archive),
            forall|k: int|
                zip_entry_text(final(self).archive, k) == zip_entry_text(old(self).archive, k),
            match r {
                Some(t) => zip_entry_text(old(self).archive, i as int) == Some(t@),
                None => zip_entry_text(old(self).archive, i as int) is None,
            },
    {
        match self.archive.by_index(i) {
            Ok(mut file) => {
                let mut contents = String::new();
                match file.read_to_string(&mut contents) {
                    Ok(_) => Some(contents),
                    Err(_) => None,
                }
            },
            Err(_) => None,
        }
    }
}

/// The size reported for the category when scanning from entry `i` on:
/// the decompressed size of the first matching entry, `0` when none
/// matches. For the raw categories the extension decides; for the JSON
/// categories the document's metadata tag must also be confirmed.
pub open spec fn spec_size_from(a: ZipFileArchive, ft: FileType, i: int) -> u64
    decreases a.entries().len() - i,
{
    if !(0 <= i < a.entries().len()) {
        0
    } else {
        match a.entries()[i] {
            None => spec_size_from(a, ft, i + 1),
            Some((p, sz)) => if spec_has_extension(p, ft) {
                if ft == FileType::Bookmarks || ft == FileType::Passwords {
                    sz
                } else {
                    match a.entry_text(i) {
                        None => spec_size_from(a, ft, i + 1),
                        Some(txt) => if spec_decode(txt, ft, true).0 == DecodeResult::Success {
                            sz
                        } else {
                            spec_size_from(a, ft, i + 1)
                        },
                    }
                }
            } else {
                spec_size_from(a, ft, i + 1)
            },
        }
    }
}

/// The text the raw extraction copies out when scanning from entry `i`
/// on: the text of the first entry whose extension matches, `None` when
/// none matches or that first match cannot be read.
pub open spec fn spec_unzip_from(a: ZipFileArchive, ft: FileType, i: int) -> Option<Seq<char>>
    decreases a.entries().len() - i,
{
    if !(0 <= i < a.entries().len()) {
        None
    } else {
        match a.entries()[i] {
            None => spec_unzip_from(a, ft, i + 1),
            Some((p, sz)) => if spec_has_extension(p, ft) {
                a.entry_text(i)
            } else {
                spec_unzip_from(a, ft, i + 1)
            },
        }
    }
}

/// The structured parse when scanning from entry `i` on: whether some
/// matching entry decodes whole, and every record handed to the sink on
/// the way — including the records of failed attempts, which are kept.
pub open spec fn spec_parse_scan(a: ZipFileArchive, ft: FileType, i: int) -> (bool, Seq<RecItem>)
    decreases a.entries().len() - i,
{
    if !(0 <= i < a.entries().len()) {
        (false, Seq::<RecItem>::empty())
    } else {
        match a.entries()[i] {
            None => spec_parse_scan(a, ft, i + 1),
            Some((p, sz)) => if spec_has_extension(p, ft) {
                match a.entry_text(i) {
                    None => spec_parse_scan(a, ft, i + 1),
                    Some(txt) => {
                        let doc = spec_decode(txt, ft, false);
                        if doc.0 == DecodeResult::Success {
                            (true, doc.1)
                        } else {
                            let rest = spec_parse_scan(a, ft, i + 1);
                            (rest.0, doc.1 + rest.1)
                        }
                    },
                }
            } else {
                spec_parse_scan(a, ft, i + 1)
            },
        }
    }
}

impl ZipFileArchive {
    /// Scans the entries in ascending index order and returns the
    /// decompressed size of the first entry matching the requested
    /// category, or `0` if none does. The archive itself is left as it
    /// was: asking again gives the same answer.
    pub fn get_file_size(&mut self, file_type: FileType) -> (r: u64)
        ensures
            r == spec_size_from(*old(self), file_type, 0),
            final(self).entries() == old(self).entries(),
            forall|k: int| final(self).entry_text(k) == old(self).entry_text(k),
    {
        let n = self.entry_count();
        let mut i: usize = 0;
        while i < n
            invariant
                i <= n,
                n == self.entries().len(),
                self.entries() == old(self).entries(),
                forall|k: int| self.entry_text(k) == old(self).entry_text(k),
                spec_size_from(*old(self), file_type, 0) == spec_size_from(
                    *old(self),
                    file_type,
                    i as int,
                ),
            decreases n - i,
        {
            proof {
                assert(spec_size_from(*self, file_type, i as int) == spec_size_from(
                    *old(self),
                    file_type,
                    i as int,
                )) by {
                    lemma_scan_same(*self, *old(self), file_type, i as int);
                }
            }
            match self.entry_meta(i) {
                None => {},
                Some((p, sz)) => {
                    if has_extension(p.as_str(), file_type) {
                        if matches!(file_type, FileType::Bookmarks) || matches!(
                            file_type,
                            FileType::Passwords,
                        ) {
                            return sz;
                        }
                        match self.read_entry_text(i) {
                            None => {},
                            Some(txt) => {
                                let cv = crate::text::chars_of(txt.as_str());
                                let res = probe_document(&cv, file_type);
                                if matches!(res, DecodeResult::Success) {
                                    return sz;
                                }
                            },
                        }
                    }
                },
            }
            i = i + 1;
        }
        0
    }
}

impl ZipFileArchive {
    /// Copies the text of the first entry matching the requested raw
    /// category into `output`: false for the JSON categories, false when
    /// no entry matches or the first match cannot be read, true with
    /// `output` unchanged when the match is empty.
    pub fn unzip(&mut self, file_type: FileType, output: &mut String) -> (r: bool)
        ensures
            final(self).entries() == old(self).entries(),
            forall|k: int| final(self).entry_text(k) == old(self).entry_text(k),
            !(file_type == FileType::Bookmarks || file_type == FileType::Passwords) ==> !r
                && final(output)@ == old(output)@,
            (file_type == FileType::Bookmarks || file_type == FileType::Passwords) ==> (match
                spec_unzip_from(*old(self), file_type, 0) {
                Some(t) => r && final(output)@ == old(output)@ + t,
                None => !r && final(output)@ == old(output)@,
            }),
    {
        if !(matches!(file_type, FileType::Bookmarks) || matches!(file_type, FileType::Passwords)) {
            return false;
        }
        let n = self.entry_count();
        let mut i: usize = 0;
        while i < n
            invariant
                file_type == FileType::Bookmarks || file_type == FileType::Passwords,
                i <= n,
                n == self.entries().len(),
                self.entries() == old(self).entries(),
                forall|k: int| self.entry_text(k) == old(self).entry_text(k),
                output@ == old(output)@,
                spec_unzip_from(*old(self), file_type, 0) == spec_unzip_from(
                    *old(self),
                    file_type,
                    i as int,
                ),
            decreases n - i,
        {
            match self.entry_meta(i) {
                None => {},
                Some((p, _sz)) => {
                    if has_extension(p.as_str(), file_type) {
                        match self.read_entry_text(i) {
                            None => {
                                return false;
                            },
                            Some(t) => {
                                vstd::string::StringExecFns::append(output, t.as_str());
                                return true;
                            },
                        }
                    }
                },
            }
            i = i + 1;
        }
        false
    }

    /// For each entry matching the history category, in index order,
    /// attempts extract-mode decoding; appends the decoded records to
    /// `history` and returns true on the first success; keeps the
    /// records of failed attempts and moves on; returns false once every
    /// candidate is exhausted.
    #[verifier::rlimit(100)]
    pub fn parse_history(&mut self, history: &mut Vec<HistoryEntry>) -> (r: bool)
        ensures
            final(self).entries() == old(self).entries(),
            forall|k: int| final(self).entry_text(k) == old(self).entry_text(k),
            r == spec_parse_scan(*old(self), FileType::History, 0).0,
            spec_hist_sink_extended(
                old(history)@,
                final(history)@,
                spec_parse_scan(*old(self), FileType::History, 0).1,
            ),
    {
        let ghost total = spec_parse_scan(*old(self), FileType::History, 0);
        let ghost base = history@;
        let ghost mut gitems: Seq<RecItem> = Seq::empty();
        let n = self.entry_count();
        let mut i: usize = 0;
        proof {
            assert(gitems + total.1 =~= total.1);
        }
        while i < n
            invariant
                i <= n,
                n == self.entries().len(),
                self.entries() == old(self).entries(),
                forall|k: int| self.entry_text(k) == old(self).entry_text(k),
                base == old(history)@,
                total == spec_parse_scan(*old(self), FileType::History, 0),
                history@.len() == base.len() + gitems.len(),
                forall|k: int| 0 <= k < base.len() ==> history@[k] == #[trigger] base[k],
                forall|k: int|
                    0 <= k < gitems.len() ==> (#[trigger] gitems[k] matches RecItem::Hist(h)
                        && crate::decoder::spec_hist_out(history@[base.len() + k], h)),
                total.0 == spec_parse_scan(*old(self), FileType::History, i as int).0,
                total.1 == gitems + spec_parse_scan(*old(self), FileType::History, i as int).1,
            decreases n - i,
        {
            let ghost scan_here = spec_parse_scan(*old(self), FileType::History, i as int);
            match self.entry_meta(i) {
                None => {},
                Some((p, _sz)) => {
                    if has_extension(p.as_str(), FileType::History) {
                        match self.read_entry_text(i) {
                            None => {},
                            Some(txt) => {
                                let ghost doc = spec_decode(txt@, FileType::History, false);
                                let ghost before = history@;
                                let ghost gold = gitems;
                                let ok = parse_history_file(txt.as_str(), history);
                                proof {
                                    gitems = gitems + doc.1;
                                    assert forall|k: int|
                                        0 <= k < gitems.len() implies (#[trigger] gitems[k] matches
                                        RecItem::Hist(h) && crate::decoder::spec_hist_out(
                                        history@[base.len() + k],
                                        h,
                                    )) by {
                                        if k < gold.len() {
                                            assert(gitems[k] == gold[k]);
                                            assert(history@[base.len() + k] == before[base.len()
                                                + k]);
                                        } else {
                                            assert(gitems[k] == doc.1[k - gold.len()]);
                                            assert(history@[base.len() + k] == history@[before.len()
                                                + (k - gold.len())]);
                                        }
                                    }
                                }
                                if ok {
                                    proof {
                                        assert(scan_here == (true, doc.1));
                                        assert(total.1 =~= gitems);
                                    }
                                    return true;
                                }
                                proof {
                                    let rest = spec_parse_scan(
                                        *old(self),
                                        FileType::History,
                                        i + 1,
                                    );
                                    assert(scan_here == (rest.0, doc.1 + rest.1));
                                    assert(gold + (doc.1 + rest.1) =~= gitems + rest.1);
                                }
                            },
                        }
                    }
                },
            }
            i = i + 1;
        }
        proof {
            assert(total.1 =~= gitems);
        }
        false
    }

    /// For each entry matching the payment cards category, in index
    /// order, attempts extract-mode decoding; appends the decoded
    /// records to `payment_cards` and returns true on the first success;
    /// keeps the records of failed attempts and moves on; returns false
    /// once every candidate is exhausted.
    #[verifier::rlimit(100)]
    pub fn parse_payment_cards(&mut self, payment_cards: &mut Vec<PaymentCardEntry>) -> (r: bool)
        ensures
            final(self).entries() == old(self).entries(),
            forall|k: int| final(self).entry_text(k) == old(self).entry_text(k),
            r == spec_parse_scan(*old(self), FileType::PaymentCards, 0).0,
            spec_card_sink_extended(
                old(payment_cards)@,
                final(payment_cards)@,
                spec_parse_scan(*old(self), FileType::PaymentCards, 0).1,
            ),
    {
        let ghost total = spec_parse_scan(*old(self), FileType::PaymentCards, 0);
        let ghost base = payment_cards@;
        let ghost mut gitems: Seq<RecItem> = Seq::empty();
        let n = self.entry_count();
        let mut i: usize = 0;
        proof {
            assert(gitems + total.1 =~= total.1);
        }
        while i < n
            invariant
                i <= n,
                n == self.entries().len(),
                self.entries() == old(self).entries(),
                forall|k: int| self.entry_text(k) == old(self).entry_text(k),
                base == old(payment_cards)@,
                total == spec_parse_scan(*old(self), FileType::PaymentCards, 0),
                payment_cards@.len() == base.len() + gitems.len(),
                forall|k: int| 0 <= k < base.len() ==> payment_cards@[k] == #[trigger] base[k],
                forall|k: int|
                    0 <= k < gitems.len() ==> (#[trigger] gitems[k] matches RecItem::Card(c)
                        && crate::decoder::spec_card_out(payment_cards@[base.len() + k], c)),
                total.0 == spec_parse_scan(*old(self), FileType::PaymentCards, i as int).0,
                total.1 == gitems + spec_parse_scan(*old(self), FileType::PaymentCards, i as int).1,
            decreases n - i,
        {
            let ghost scan_here = spec_parse_scan(*old(self), FileType::PaymentCards, i as int);
            match self.entry_meta(i) {
                None => {},
                Some((p, _sz)) => {
                    if has_extension(p.as_str(), FileType::PaymentCards) {
                        match self.read_entry_text(i) {
                            None => {},
                            Some(txt) => {
                                let ghost doc = spec_decode(txt@, FileType::PaymentCards, false);
                                let ghost before = payment_cards@;
                                let ghost gold = gitems;
                                let ok = parse_payment_cards_file(txt.as_str(), payment_cards);
                                proof {
                                    gitems = gitems + doc.1;
                                    assert forall|k: int|
                                        0 <= k < gitems.len() implies (#[trigger] gitems[k] matches
                                        RecItem::Card(c) && crate::decoder::spec_card_out(
                                        payment_cards@[base.len() + k],
                                        c,
                                    )) by {
                                        if k < gold.len() {
                                            assert(gitems[k] == gold[k]);
                                            assert(payment_cards@[base.len() + k] == before[
                                                base.len() + k]);
                                        } else {
                                            assert(gitems[k] == doc.1[k - gold.len()]);
                                            assert(payment_cards@[base.len() + k]
                                                == payment_cards@[before.len() + (k
                                                - gold.len())]);
                                        }
                                    }
                                }
                                if ok {
                                    proof {
                                        assert(scan_here == (true, doc.1));
                                        assert(total.1 =~= gitems);
                                    }
                                    return true;
                                }
                                proof {
                                    let rest = spec_parse_scan(
                                        *old(self),
                                        FileType::PaymentCards,
                                        i + 1,
                                    );
                                    assert(scan_here == (rest.0, doc.1 + rest.1));
                                    assert(gold + (doc.1 + rest.1) =~= gitems + rest.1);
                                }
                            },
                        }
                    }
                },
            }
            i = i + 1;
        }
        proof {
            assert(total.1 =~= gitems);
        }
        false
    }
}

/// Whether the bytes parse as a zip archive's central directory — the
/// archive reader's decision, a function of the bytes alone.
pub uninterp spec fn spec_zip_opens(bytes: Seq<u8>) -> bool;

/// The entries of the archive that the bytes open as: a function of the
/// bytes alone.
pub uninterp spec fn spec_zip_entries(bytes: Seq<u8>) -> Seq<Option<(Seq<char>, u64)>>;

/// Relies on `zip::ZipArchive::new` over an in-memory cursor: `Some`
/// exactly when the bytes parse as a zip archive's central directory,
/// holding that archive's entries; both are functions of the bytes
/// alone.
#[verifier::external_body]
fn open_archive(bytes: Vec<u8>) -> (r: Option<ZipFileArchive>)
    ensures
        r is Some <==> spec_zip_opens(bytes@),
        r matches Some(z) ==> zip_entry_list(z.archive) == spec_zip_entries(bytes@),
{
    match zip::ZipArchive::new(std::io::Cursor::new(bytes)) {
        Ok(archive) => Some(ZipFileArchive { archive }),
        Err(_) => None,
    }
}

/// The outcome of opening an archive, wrapped for a host that cannot
/// hold this library's result types: a single-use cell that is either
/// an archive or an error.
pub struct ResultOfZipFileArchive {
    inner: Option<ZipFileArchive>,
}

impl ResultOfZipFileArchive {
    /// Whether an archive is held.
    pub closed spec fn has_archive(&self) -> bool {
        self.inner is Some
    }

    /// The archive held.
    pub closed spec fn archive(&self) -> ZipFileArchive {
        self.inner->Some_0
    }

    /// Whether the open failed, or the archive was already taken: a
    /// non-consuming peek.
    pub fn err(&self) -> (r: bool)
        ensures
            r == !self.has_archive(),
    {
        self.inner.is_none()
    }

    /// Moves the archive out, leaving the wrapper spent. Taking from an
    /// error, or taking twice, is a contract violation.
    pub fn unwrap(&mut self) -> (r: ZipFileArchive)
        requires
            old(self).has_archive(),
        ensures
            r == old(self).archive(),
            !final(self).has_archive(),
    {
        let mut taken: Option<ZipFileArchive> = None;
        core::mem::swap(&mut self.inner, &mut taken);
        match taken {
            Some(archive) => archive,
            None => vstd::pervasive::unreached(),
        }
    }
}

/// Opens an export archive from its bytes and wraps the outcome for the
/// host: the wrapper holds an archive — the one the bytes name — exactly
/// when the bytes open as one, and an error is reported through the
/// wrapper, never a panic.
pub fn new_archive(zip_contents: Vec<u8>) -> (r: ResultOfZipFileArchive)
    ensures
        r.has_archive() == spec_zip_opens(zip_contents@),
        r.has_archive() ==> r.archive().entries() == spec_zip_entries(zip_contents@),
{
    match open_archive(zip_contents) {
        Some(archive) => ResultOfZipFileArchive { inner: Some(archive) },
        None => ResultOfZipFileArchive { inner: None },
    }
}

/// The wrapper for a session whose archive could not even be read: it
/// reports an error and holds nothing.
pub fn failed_archive() -> (r: ResultOfZipFileArchive)
    ensures
        !r.has_archive(),
{
    ResultOfZipFileArchive { inner: None }
}

/// Whether an entry offers itself to the category by its extension.
pub open spec fn spec_ext_candidate(a: ZipFileArchive, ft: FileType, i: int) -> bool {
    a.entries()[i] matches Some((p, sz)) && spec_has_extension(p, ft)
}

proof fn lemma_no_candidate_from(a: ZipFileArchive, ft: FileType, i: int)
    requires
        forall|k: int| 0 <= k < a.entries().len() ==> !spec_ext_candidate(a, ft, k),
    ensures
        spec_size_from(a, ft, i) == 0,
        spec_parse_scan(a, ft, i) == (false, Seq::<RecItem>::empty()),
        spec_unzip_from(a, ft, i) is None,
    decreases a.entries().len() - i,
{
    if 0 <= i < a.entries().len() {
        assert(!spec_ext_candidate(a, ft, i));
        lemma_no_candidate_from(a, ft, i + 1);
    }
}

/// Where no entry has the category's extension, the size query reports
/// zero, the raw extraction finds nothing, and the structured parse
/// fails with an untouched sink.
pub proof fn lemma_no_candidate(a: ZipFileArchive, ft: FileType)
    requires
        forall|k: int| 0 <= k < a.entries().len() ==> !spec_ext_candidate(a, ft, k),
    ensures
        spec_size_from(a, ft, 0) == 0,
        spec_parse_scan(a, ft, 0) == (false, Seq::<RecItem>::empty()),
        spec_unzip_from(a, ft, 0) is None,
{
    lemma_no_candidate_from(a, ft, 0);
}

/// Scans are functions of the archive's entries and texts alone: two
/// archives that hold the same answer every query the same way, so
/// asking a handle again — which leaves its entries and texts as they
/// were — returns identical values.
pub proof fn lemma_scan_same(a: ZipFileArchive, b: ZipFileArchive, ft: FileType, i: int)
    requires
        a.entries() == b.entries(),
        forall|k: int| a.entry_text(k) == b.entry_text(k),
    ensures
        spec_size_from(a, ft, i) == spec_size_from(b, ft, i),
        spec_unzip_from(a, ft, i) == spec_unzip_from(b, ft, i),
        spec_parse_scan(a, ft, i) == spec_parse_scan(b, ft, i),
    decreases a.entries().len() - i,
{
    if 0 <= i < a.entries().len() {
        lemma_scan_same(a, b, ft, i + 1);
    }
}

} // verus!
