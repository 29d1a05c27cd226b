use std::io::Write;
use user_data_importer::archive::{new_archive, ZipFileArchive};
use user_data_importer::category::{expected_data_type, expected_extension, has_extension};
use user_data_importer::decoder::{decode_history, is_history_file, is_payment_cards_file,
    parse_history_file, parse_payment_cards_file, probe_document, DecodeResult};
use user_data_importer::FileType;

fn chars(s: &str) -> Vec<char> {
    s.chars().collect()
}

/// Builds an in-memory zip archive from (path, content) pairs.
fn build_zip(entries: &[(&str, &str)]) -> Vec<u8> {
    let mut writer = zip::ZipWriter::new(std::io::Cursor::new(Vec::new()));
    let options = zip::write::SimpleFileOptions::default()
        .compression_method(zip::CompressionMethod::Stored);
    for (name, content) in entries {
        writer.start_file(*name, options).unwrap();
        writer.write_all(content.as_bytes()).unwrap();
    }
    writer.finish().unwrap().into_inner()
}

fn open(entries: &[(&str, &str)]) -> ZipFileArchive {
    let mut result = new_archive(build_zip(entries));
    assert!(!result.err());
    result.unwrap()
}

const HISTORY_DOC: &str = "{\"metadata\":{\"data_type\":\"history\"},\"history\":[{\"url\":\"https://a\",\"title\":\"A\",\"time_usec\":1,\"visit_count\":2}]}";

#[test]
fn classifier_extensions() {
    assert_eq!(expected_extension(FileType::Bookmarks), "html");
    assert_eq!(expected_extension(FileType::History), "json");
    assert_eq!(expected_extension(FileType::Passwords), "csv");
    assert_eq!(expected_extension(FileType::PaymentCards), "json");
    assert!(has_extension("History.JSON", FileType::History));
    assert!(has_extension("some/dir/export.json", FileType::PaymentCards));
    assert!(!has_extension("history.txt", FileType::History));
    assert!(!has_extension("history", FileType::History));
    assert!(!has_extension(".json", FileType::History));
    assert!(!has_extension("history.json/", FileType::History));
    assert!(has_extension("a.tar.json", FileType::History));
    assert!(has_extension("bookmarks.HtMl", FileType::Bookmarks));
    assert!(has_extension("passwords.csv", FileType::Passwords));
}

#[test]
fn data_types() {
    assert_eq!(expected_data_type(FileType::History), Some("history"));
    assert_eq!(expected_data_type(FileType::PaymentCards), Some("payment_cards"));
    assert_eq!(expected_data_type(FileType::Bookmarks), None);
    assert_eq!(expected_data_type(FileType::Passwords), None);
}

#[test]
fn decode_one_history_record() {
    let mut sink = Vec::new();
    assert!(parse_history_file(HISTORY_DOC, &mut sink));
    assert_eq!(sink.len(), 1);
    assert_eq!(sink[0].url, "https://a");
    assert_eq!(sink[0].title, "A");
    assert_eq!(sink[0].time_usec, 1);
    assert_eq!(sink[0].visit_count, 2);
}

#[test]
fn decode_payment_card_defaults() {
    let doc = "{\"metadata\":{\"data_type\":\"payment_cards\"},\"payment_cards\":[{\"card_number\":\"4111 1111\"}]}";
    let mut sink = Vec::new();
    assert!(parse_payment_cards_file(doc, &mut sink));
    assert_eq!(sink.len(), 1);
    assert_eq!(sink[0].card_number, "4111 1111");
    assert_eq!(sink[0].card_name, "");
    assert_eq!(sink[0].cardholder_name, "");
    assert_eq!(sink[0].card_expiration_month, 0);
    assert_eq!(sink[0].card_expiration_year, 0);
}

#[test]
fn decode_payment_card_full() {
    let doc = "{\"metadata\":{\"data_type\":\"payment_cards\"},\"payment_cards\":[{\"card_number\":\"4\",\"card_name\":\"mine\",\"cardholder_name\":\"Me\",\"card_expiration_month\":12,\"card_expiration_year\":2031}]}";
    let mut sink = Vec::new();
    assert!(parse_payment_cards_file(doc, &mut sink));
    assert_eq!(sink.len(), 1);
    assert_eq!(sink[0].card_name, "mine");
    assert_eq!(sink[0].cardholder_name, "Me");
    assert_eq!(sink[0].card_expiration_month, 12);
    assert_eq!(sink[0].card_expiration_year, 2031);
}

#[test]
fn decoder_rules() {
    // A mismatched tag is not this category.
    assert!(!is_history_file("{\"metadata\":{\"data_type\":\"extensions\"},\"history\":[]}"));
    // A second metadata member is an error.
    let mut sink = Vec::new();
    assert!(!parse_history_file(
        "{\"metadata\":{\"data_type\":\"history\"},\"metadata\":{\"data_type\":\"history\"},\"history\":[]}",
        &mut sink
    ));
    // The array before the metadata is an error.
    assert!(!parse_history_file(
        "{\"history\":[],\"metadata\":{\"data_type\":\"history\"}}",
        &mut sink
    ));
    // An object without the array is an error.
    assert!(!parse_history_file("{\"metadata\":{\"data_type\":\"history\"}}", &mut sink));
    // Not an object at all.
    assert!(!parse_history_file("[1,2,3]", &mut sink));
    assert!(!parse_history_file("", &mut sink));
    assert!(sink.is_empty());
    // Probing stops at the confirmed metadata: garbage after it is never read.
    assert!(is_history_file("{\"metadata\":{\"data_type\":\"history\"}, garbage"));
    // Extraction stops after the array: garbage after it is never read.
    assert!(parse_history_file(
        "{\"metadata\":{\"data_type\":\"history\"},\"history\":[] garbage",
        &mut sink
    ));
    assert!(sink.is_empty());
}

#[test]
fn decoder_member_order_and_unknown_members() {
    // Unknown members are decoded generically and discarded; escapes and
    // nested values are understood.
    let doc = "{\"extra\":{\"deep\":[1,2.5,true,null,\"x\"]},\"metadata\":{\"browser_name\":\"Safari\",\"data_type\":\"history\"},\"note\":-3.5e-2,\"history\":[{\"url\":\"https://\\u00e9/\\n\",\"time_usec\":3,\"visit_count\":1}]}";
    let mut sink = Vec::new();
    assert!(parse_history_file(doc, &mut sink));
    assert_eq!(sink.len(), 1);
    assert_eq!(sink[0].url, "https://\u{e9}/\n");
    assert_eq!(sink[0].title, "");
}

#[test]
fn decoder_rejects_malformed_records() {
    let mut sink = Vec::new();
    // A missing required member.
    assert!(!parse_history_file(
        "{\"metadata\":{\"data_type\":\"history\"},\"history\":[{\"url\":\"a\"}]}",
        &mut sink
    ));
    assert!(sink.is_empty());
    // A duplicate member inside a record.
    assert!(!parse_history_file(
        "{\"metadata\":{\"data_type\":\"history\"},\"history\":[{\"url\":\"a\",\"url\":\"b\",\"time_usec\":1,\"visit_count\":1}]}",
        &mut sink
    ));
    // A count that is not a plain integer.
    assert!(!parse_history_file(
        "{\"metadata\":{\"data_type\":\"history\"},\"history\":[{\"url\":\"a\",\"time_usec\":1.5,\"visit_count\":1}]}",
        &mut sink
    ));
    // Records before a malformed element are kept.
    assert!(!parse_history_file(
        "{\"metadata\":{\"data_type\":\"history\"},\"history\":[{\"url\":\"good\",\"time_usec\":1,\"visit_count\":1},oops]}",
        &mut sink
    ));
    assert_eq!(sink.len(), 1);
    assert_eq!(sink[0].url, "good");
}

#[test]
fn decode_outcome_variants() {
    let mut sink = Vec::new();
    assert_eq!(decode_history(&chars(HISTORY_DOC), false, &mut sink), DecodeResult::Success);
    assert_eq!(
        decode_history(
            &chars("{\"metadata\":{\"data_type\":\"extensions\"},\"history\":[]}"),
            false,
            &mut sink
        ),
        DecodeResult::WrongDataType
    );
    assert_eq!(
        decode_history(
            &chars("{\"metadata\":{\"data_type\":\"history\"},\"metadata\":{\"data_type\":\"history\"}}"),
            false,
            &mut sink
        ),
        DecodeResult::MultipleMetadata
    );
    assert_eq!(
        decode_history(
            &chars("{\"history\":[],\"metadata\":{\"data_type\":\"history\"}}"),
            false,
            &mut sink
        ),
        DecodeResult::ArrayBeforeMetadata
    );
    assert_eq!(
        decode_history(&chars("{\"metadata\":{\"data_type\":\"history\"},\"other\":1}"), false, &mut sink),
        DecodeResult::ArrayNotFound
    );
    assert_eq!(decode_history(&chars("{\"metadata\":"), false, &mut sink), DecodeResult::Syntax);
    // The raw categories carry no metadata tag, so no document probes as one.
    assert_eq!(probe_document(&chars(HISTORY_DOC), FileType::Bookmarks), DecodeResult::Unsupported);
    assert_eq!(probe_document(&chars(HISTORY_DOC), FileType::Passwords), DecodeResult::Unsupported);
    // Only the one successful decode appended a record; each failed
    // attempt left the sink as it stood.
    assert_eq!(sink.len(), 1);
}

#[test]
fn size_of_no_match_returns_zero() {
    let mut archive = open(&[("readme.txt", "hello"), ("export.csv", "a,b")]);
    assert_eq!(archive.get_file_size(FileType::History), 0);
    assert_eq!(archive.get_file_size(FileType::Bookmarks), 0);
    assert_eq!(archive.get_file_size(FileType::PaymentCards), 0);
    // The csv entry matches Passwords by extension alone.
    assert_eq!(archive.get_file_size(FileType::Passwords), 3);
}

#[test]
fn parse_with_no_match_leaves_sink_untouched() {
    let mut archive = open(&[("readme.txt", "hello")]);
    let mut history = Vec::new();
    let mut cards = Vec::new();
    assert!(!archive.parse_history(&mut history));
    assert!(!archive.parse_payment_cards(&mut cards));
    assert!(history.is_empty());
    assert!(cards.is_empty());
}

#[test]
fn size_of_checks_the_tag() {
    // An entry with another data type is never reported as a History match.
    let doc = "{\"metadata\":{\"data_type\":\"extensions\"},\"extensions\":[]}";
    let mut archive = open(&[("extensions.json", doc)]);
    assert_eq!(archive.get_file_size(FileType::History), 0);
    let mut history = Vec::new();
    assert!(!archive.parse_history(&mut history));
    assert!(history.is_empty());
}

#[test]
fn size_of_reports_first_confirmed_match() {
    let other = "{\"metadata\":{\"data_type\":\"payment_cards\"},\"payment_cards\":[]}";
    let mut archive = open(&[("cards.json", other), ("history.json", HISTORY_DOC)]);
    assert_eq!(archive.get_file_size(FileType::History), HISTORY_DOC.len() as u64);
    assert_eq!(archive.get_file_size(FileType::PaymentCards), other.len() as u64);
}

#[test]
fn size_of_is_stable_across_calls() {
    let mut archive = open(&[("history.json", HISTORY_DOC), ("bookmarks.html", "<html></html>")]);
    let first = archive.get_file_size(FileType::History);
    let second = archive.get_file_size(FileType::History);
    assert_eq!(first, second);
    assert_eq!(archive.get_file_size(FileType::Bookmarks), archive.get_file_size(
        FileType::Bookmarks
    ));
}

#[test]
fn parse_history_skips_mismatched_entry() {
    // Two .json entries: first mismatched tag, second valid. The records
    // come from the second entry only.
    let wrong = "{\"metadata\":{\"data_type\":\"extensions\"},\"history\":[]}";
    let mut archive = open(&[("a_first.json", wrong), ("b_second.json", HISTORY_DOC)]);
    let mut history = Vec::new();
    assert!(archive.parse_history(&mut history));
    assert_eq!(history.len(), 1);
    assert_eq!(history[0].url, "https://a");
}

#[test]
fn unzip_copies_raw_text() {
    let mut archive = open(&[
        ("bookmarks.html", "<html>b</html>"),
        ("passwords.csv", "site,user,password"),
        ("empty.csv", ""),
    ]);
    let mut out = String::new();
    assert!(archive.unzip(FileType::Bookmarks, &mut out));
    assert_eq!(out, "<html>b</html>");
    let mut out = String::new();
    assert!(archive.unzip(FileType::Passwords, &mut out));
    assert_eq!(out, "site,user,password");
    // JSON categories never extract raw.
    let mut out = String::new();
    assert!(!archive.unzip(FileType::History, &mut out));
    assert!(out.is_empty());
    // A zero-length match extracts successfully with empty output.
    let mut archive = open(&[("empty.html", "")]);
    let mut out = String::new();
    assert!(archive.unzip(FileType::Bookmarks, &mut out));
    assert!(out.is_empty());
    // No match at all.
    let mut archive = open(&[("readme.txt", "x")]);
    let mut out = String::new();
    assert!(!archive.unzip(FileType::Bookmarks, &mut out));
}

#[test]
fn result_wrapper_is_single_use() {
    let mut result = new_archive(build_zip(&[("a.html", "x")]));
    assert!(!result.err());
    let _archive = result.unwrap();
    // The wrapper is spent after the take.
    assert!(result.err());
    // Bytes that are no archive report an error.
    let mut bad = new_archive(vec![1, 2, 3]);
    assert!(bad.err());
}

#[test]
fn probe_never_materializes_the_array() {
    // A document whose array has 100000 elements: probing confirms the
    // tag without ever decoding an element, so no sink sees a record.
    let mut doc = String::from("{\"metadata\":{\"data_type\":\"history\"},\"history\":[");
    for i in 0..100000 {
        if i > 0 {
            doc.push(',');
        }
        doc.push_str("{\"url\":\"u\",\"time_usec\":1,\"visit_count\":1}");
    }
    doc.push_str("]}");
    assert!(is_history_file(&doc));
    // An instrumented sink handed to a probe-mode decode sees nothing.
    let mut watched = Vec::new();
    assert_eq!(decode_history(&chars(&doc), true, &mut watched), DecodeResult::Success);
    assert!(watched.is_empty());
    let mut archive = open(&[("history.json", doc.as_str())]);
    assert_eq!(archive.get_file_size(FileType::History), doc.len() as u64);
    // Extract mode on the same confirmed document succeeds and hands the
    // sink every record.
    let mut sink = Vec::new();
    assert!(parse_history_file(&doc, &mut sink));
    assert_eq!(sink.len(), 100000);
}

#[test]
fn probe_extract_consistency_scenarios() {
    // Probing and extraction judge the metadata alike: a document that
    // probes true is not turned away at the tag check.
    assert!(is_history_file(HISTORY_DOC));
    let mut sink = Vec::new();
    assert!(parse_history_file(HISTORY_DOC, &mut sink));
    let cards = "{\"metadata\":{\"data_type\":\"payment_cards\"},\"payment_cards\":[]}";
    assert!(is_payment_cards_file(cards));
    let mut csink = Vec::new();
    assert!(parse_payment_cards_file(cards, &mut csink));
    assert!(csink.is_empty());
}
