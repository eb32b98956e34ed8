//! The OAuth1 signer, held against the reference implementation: for a fixed
//! nonce and timestamp the produced authorization header must match
//! oauth1-request byte for byte (and hence the HMAC-SHA1 signature value).

use etrade::signer::build_authorization;
use etrade::Method;
use std::collections::BTreeSet;

const CK: &str = "consumer_key";
const CS: &str = "consumer_secret";
const NONCE: &str = "fixed-test-nonce";
const TIMESTAMP: u64 = 1318622958;

fn reference_header(
    url: &str,
    params: &[(&str, &str)],
    token: Option<(&str, &str)>,
    callback: Option<&str>,
    verifier: Option<&str>,
) -> String {
    let client = oauth1_request::Credentials::new(CK, CS);
    let mut builder = oauth1_request::Builder::new(client, oauth1_request::HmacSha1);
    builder.nonce(NONCE).timestamp(TIMESTAMP);
    if let Some((k, s)) = token {
        builder.token(Some(oauth1_request::Credentials::new(k, s)));
    }
    if let Some(cb) = callback {
        builder.callback(cb);
    }
    if let Some(v) = verifier {
        builder.verifier(v);
    }
    let set: BTreeSet<(String, String)> = params
        .iter()
        .map(|(k, v)| (k.to_string(), v.to_string()))
        .collect();
    let request = builder.build("GET", url, &set);
    request.authorization
}

fn our_header(
    url: &str,
    params: &[(&str, &str)],
    token: Option<(&str, &str)>,
    callback: Option<&str>,
    verifier: Option<&str>,
) -> String {
    let mut pairs: Vec<(Vec<u8>, Vec<u8>)> = params
        .iter()
        .map(|(k, v)| (k.as_bytes().to_vec(), v.as_bytes().to_vec()))
        .collect();
    pairs.sort();
    pairs.dedup();
    build_authorization(
        &Method::Get,
        url,
        &pairs,
        CK.as_bytes(),
        CS.as_bytes(),
        &callback.map(|c| c.as_bytes().to_vec()),
        NONCE.as_bytes(),
        TIMESTAMP,
        &token.map(|(k, s)| (k.as_bytes().to_vec(), s.as_bytes().to_vec())),
        &verifier.map(|v| v.as_bytes().to_vec()),
    )
}

/// Signing GET `https://host/path?b=2&a=1` with fixed signing inputs gives
/// the same header, signature included, as the reference OAuth1 algorithm.
#[test]
fn signature_matches_reference_for_query_request() {
    let params = [("b", "2"), ("a", "1")];
    let token = Some(("token_key", "token_secret"));
    let ours = our_header("https://host/path", &params, token, None, None);
    let reference = reference_header("https://host/path", &params, token, None, None);
    assert_eq!(ours, reference);
    assert!(ours.contains("oauth_signature=\""));
}

#[test]
fn signature_matches_reference_without_token() {
    let ours = our_header(
        "https://api.etrade.com/oauth/request_token",
        &[],
        None,
        Some("oob"),
        None,
    );
    let reference = reference_header(
        "https://api.etrade.com/oauth/request_token",
        &[],
        None,
        Some("oob"),
        None,
    );
    assert_eq!(ours, reference);
}

#[test]
fn signature_matches_reference_with_verifier() {
    let token = Some(("request_token", "request_secret"));
    let ours = our_header(
        "https://api.etrade.com/oauth/access_token",
        &[],
        token,
        None,
        Some("13579"),
    );
    let reference = reference_header(
        "https://api.etrade.com/oauth/access_token",
        &[],
        token,
        None,
        Some("13579"),
    );
    assert_eq!(ours, reference);
}

/// Values that need escaping must survive the double encoding of the
/// signature base string identically to the reference.
#[test]
fn signature_matches_reference_with_reserved_characters() {
    let params = [("status", "Hello Ladies + Gentlemen!"), ("q", "a&b=c")];
    let token = Some(("tok", "sec ret"));
    let ours = our_header("https://example.com/api", &params, token, None, None);
    let reference = reference_header("https://example.com/api", &params, token, None, None);
    assert_eq!(ours, reference);
}

/// Signing is deterministic: the same inputs give the same header.
#[test]
fn signature_is_deterministic() {
    let params = [("a", "1")];
    let one = our_header("https://host/p", &params, None, None, None);
    let two = our_header("https://host/p", &params, None, None, None);
    assert_eq!(one, two);
}
