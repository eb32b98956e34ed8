//! The byte-level codecs: percent encoding, query strings, dates and the
//! XML error envelope.

use etrade::date::{date_from_parts, format_date, parse_date, Date};
use etrade::params::{canonicalize, encode_query, parse_query};
use etrade::percent::{form_decode, percent_encode};
use etrade::session::parse_error_envelope;

#[test]
fn percent_encoding_keeps_unreserved_bytes() {
    assert_eq!(percent_encode(b"AZaz09-._~"), b"AZaz09-._~".to_vec());
}

#[test]
fn percent_encoding_escapes_reserved_bytes() {
    assert_eq!(percent_encode(b"a b+c/d"), b"a%20b%2Bc%2Fd".to_vec());
    assert_eq!(percent_encode(b"\xE3\x81\xB5"), b"%E3%81%B5".to_vec());
}

#[test]
fn form_decoding_handles_plus_and_escapes() {
    assert_eq!(form_decode(b"two+words%21"), b"two words!".to_vec());
    // an incomplete escape is passed through unchanged
    assert_eq!(form_decode(b"100%"), b"100%".to_vec());
    assert_eq!(form_decode(b"%zz"), b"%zz".to_vec());
}

#[test]
fn query_parsing_splits_decodes_and_skips_empty_segments() {
    let pairs = parse_query(b"a=1&&b=two+words&flag");
    let view: Vec<(&[u8], &[u8])> = pairs
        .iter()
        .map(|p| (p.0.as_slice(), p.1.as_slice()))
        .collect();
    assert_eq!(
        view,
        vec![
            (b"a".as_slice(), b"1".as_slice()),
            (b"b".as_slice(), b"two words".as_slice()),
            (b"flag".as_slice(), b"".as_slice()),
        ]
    );
}

#[test]
fn canonicalization_sorts_and_drops_duplicates() {
    let pairs = vec![
        (b"b".to_vec(), b"2".to_vec()),
        (b"a".to_vec(), b"1".to_vec()),
        (b"b".to_vec(), b"2".to_vec()),
        (b"a".to_vec(), b"0".to_vec()),
    ];
    let canonical = canonicalize(pairs);
    let qs = encode_query(&canonical);
    assert_eq!(qs, b"a=0&a=1&b=2".to_vec());
}

/// The query string a GET carries matches what form serialization of the
/// same pairs produces.
#[test]
fn encodes_query_string() {
    let data = [
        ("blah", "some things go here"),
        ("other", "and others go here"),
    ];
    let v = serde_urlencoded::to_string(data).unwrap();
    println!("query string: '{}'", v);
    let pairs: Vec<(Vec<u8>, Vec<u8>)> = data
        .iter()
        .map(|(k, v)| (k.as_bytes().to_vec(), v.as_bytes().to_vec()))
        .collect();
    assert_eq!(encode_query(&pairs), v.into_bytes());
    let n = serde_urlencoded::to_string(None as Option<&[u8]>).unwrap();
    println!("query string: '{}'", n);
    assert!(n.is_empty());
}

#[test]
fn dates_round_trip_through_their_text_form() {
    let d = Date { year: 2021, month: 3, day: 7 };
    let s = format_date(&d);
    assert_eq!(s, "2021-03-07");
    assert_eq!(parse_date(&s), Some(d));
}

#[test]
fn date_parsing_rejects_malformed_text() {
    assert_eq!(parse_date("2021-3-07"), None);
    assert_eq!(parse_date("2021/03/07"), None);
    assert_eq!(parse_date("2021-13-07"), None);
    assert_eq!(parse_date("2021-12-32"), None);
    assert_eq!(parse_date(""), None);
}

#[test]
fn date_from_parts_validates_ranges() {
    assert!(date_from_parts(2021, 12, 31).is_some());
    assert!(date_from_parts(-44, 3, 15).is_none());
    assert!(date_from_parts(10000, 1, 1).is_none());
    assert!(date_from_parts(2021, 0, 1).is_none());
}

/// A non-success body carrying the XML envelope yields its code and message.
#[test]
fn error_envelope_yields_code_and_message() {
    let body = b"<Error><code>100</code><message>bad request</message></Error>";
    let parsed = parse_error_envelope(body).unwrap();
    assert_eq!(parsed.code, 100);
    assert_eq!(parsed.message, "bad request");
}

#[test]
fn error_envelope_handles_negative_codes() {
    let body = b"<Error><code>-7</code><message>x</message></Error>";
    let parsed = parse_error_envelope(body).unwrap();
    assert_eq!(parsed.code, -7);
    assert_eq!(parsed.message, "x");
}

#[test]
fn error_envelope_requires_both_tags() {
    assert!(parse_error_envelope(b"<Error><code>1</code></Error>").is_none());
    assert!(parse_error_envelope(b"<Error><message>m</message></Error>").is_none());
    assert!(parse_error_envelope(b"<Error><code>ten</code><message>m</message></Error>").is_none());
    assert!(parse_error_envelope(b"not xml at all").is_none());
}
