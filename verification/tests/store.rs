//! The credential store: the in-memory implementation and the session's
//! invalidation behavior.

use etrade::session::Error;
use etrade::{Memstore, Mode, Session, Store};

#[test]
fn test_mem_store() {
    verify_token_store(Memstore::new());
}

fn verify_token_store(token_store: impl Store) {
    let mut token_store = token_store;
    token_store.put("my_svc", "api_key", "hello").unwrap();
    assert_eq!(
        token_store.get("my_svc", "api_key").unwrap(),
        Some("hello".to_string())
    );
    assert!(token_store.del("my_svc", "api_key").is_ok());
    assert!(token_store.get("my_svc", "api_key").unwrap().is_none());
}

#[test]
fn mem_store_overwrites_and_scopes_namespaces() {
    let mut store = Memstore::new();
    store.put("ns1", "k", "v1").unwrap();
    store.put("ns1", "k", "v2").unwrap();
    store.put("ns2", "k", "other").unwrap();
    assert_eq!(store.get("ns1", "k").unwrap(), Some("v2".to_string()));
    assert_eq!(store.get("ns2", "k").unwrap(), Some("other".to_string()));
    store.del("ns1", "k").unwrap();
    assert_eq!(store.get("ns1", "k").unwrap(), None);
    assert_eq!(store.get("ns2", "k").unwrap(), Some("other".to_string()));
}

#[test]
fn mem_store_del_of_absent_key_succeeds() {
    let mut store = Memstore::new();
    assert!(store.del("ns", "missing").is_ok());
}

/// After `invalidate`, all five token keys read back as absent.
#[test]
fn invalidate_clears_all_five_keys() {
    let mut store = Memstore::new();
    for key in [
        "apikey",
        "secret",
        "access_token_key",
        "access_token_secret",
        "request_token_key",
        "request_token_secret",
        "request_token_ts",
    ] {
        store.put("etradesandbox", key, "value").unwrap();
    }
    let mut session = Session::new(Mode::Sandbox, store);
    session.invalidate().unwrap();
    let store = session.into_store();
    for key in [
        "access_token_key",
        "access_token_secret",
        "request_token_key",
        "request_token_secret",
        "request_token_ts",
    ] {
        assert_eq!(store.get("etradesandbox", key).unwrap(), None, "{key}");
    }
    // consumer credentials survive invalidation
    assert_eq!(
        store.get("etradesandbox", "apikey").unwrap(),
        Some("value".to_string())
    );
    assert_eq!(
        store.get("etradesandbox", "secret").unwrap(),
        Some("value".to_string())
    );
}

/// Invalidating twice gives the same end state and the second call does not
/// error.
#[test]
fn invalidate_is_idempotent() {
    let mut store = Memstore::new();
    store.put("etrade", "access_token_key", "at").unwrap();
    store.put("etrade", "request_token_key", "rt").unwrap();
    let mut session = Session::new(Mode::Live, store);
    session.invalidate().unwrap();
    let second = session.invalidate();
    assert!(second.is_ok());
    let store = session.into_store();
    for key in [
        "access_token_key",
        "access_token_secret",
        "request_token_key",
        "request_token_secret",
        "request_token_ts",
    ] {
        assert_eq!(store.get("etrade", key).unwrap(), None);
    }
}

#[test]
fn initialize_stores_consumer_credentials() {
    let store = Memstore::new();
    let mut session = Session::new(Mode::Sandbox, store);
    session.initialize("my-key", "my-secret").unwrap();
    let store = session.into_store();
    assert_eq!(
        store.get("etradesandbox", "apikey").unwrap(),
        Some("my-key".to_string())
    );
    assert_eq!(
        store.get("etradesandbox", "secret").unwrap(),
        Some("my-secret".to_string())
    );
}

#[test]
fn consumer_reports_missing_credentials() {
    let store = Memstore::new();
    let session = Session::new(Mode::Sandbox, store);
    match session.consumer() {
        Err(Error::MissingCredential { key }) => assert_eq!(key, "apikey"),
        other => panic!("unexpected result: {other:?}"),
    }
}
