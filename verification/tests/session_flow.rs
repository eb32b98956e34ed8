//! The token lifecycle and the dispatcher, driven step by step with scripted
//! responses in place of a server.

use etrade::date::Date;
use etrade::session::{
    ApiResponse, AuthStep, ContentKind, Error, HttpOutcome, HttpResponse, SendStep, SignedRequest,
    SignerParams,
};
use etrade::{Memstore, Method, Mode, Session, Store};

fn signing() -> SignerParams {
    SignerParams { nonce: "scripted-nonce".to_string(), timestamp: 1318622958 }
}

fn today() -> Date {
    Date { year: 2021, month: 6, day: 15 }
}

fn session_with_consumer() -> Session<Memstore> {
    let mut store = Memstore::new();
    store.put("etradesandbox", "apikey", "ckey").unwrap();
    store.put("etradesandbox", "secret", "csecret").unwrap();
    Session::new(Mode::Sandbox, store)
}

fn ok_body(token: &str, secret: &str) -> HttpOutcome {
    HttpOutcome {
        ok: true,
        body: format!("oauth_token={token}&oauth_token_secret={secret}").into_bytes(),
    }
}

fn failure() -> HttpOutcome {
    HttpOutcome { ok: false, body: Vec::new() }
}

fn fetch_url(step: &AuthStep) -> String {
    match step {
        AuthStep::Fetch(req) => req.url.clone(),
        other => panic!("expected a fetch, got {}", step_name_auth(other)),
    }
}

fn step_name_auth(step: &AuthStep) -> &'static str {
    match step {
        AuthStep::Done(_) => "done",
        AuthStep::Fetch(_) => "fetch",
        AuthStep::Prompt(_) => "prompt",
        AuthStep::Failed(_) => "failed",
    }
}

/// With an empty token cache, resolving an access token goes through the
/// request token, a renewal attempt, and — once that fails — the full
/// interactive flow, prompting the user exactly once.
#[test]
fn fresh_acquisition_runs_request_renewal_then_interactive_flow() {
    let mut session = session_with_consumer();
    let sp = signing();
    let today = today();
    let mut prompts = 0;

    let (flow, step) = session.access_token_start(&today, &sp).unwrap();
    assert_eq!(fetch_url(&step), "https://api.etrade.com/oauth/request_token");

    let (flow, step) = session
        .access_token_step_http(flow, &today, &sp, &ok_body("rt1", "rs1"))
        .unwrap();
    assert_eq!(
        fetch_url(&step),
        "https://api.etrade.com/oauth/renew_access_token"
    );

    // the renewal fails: fall through to the full interactive flow
    let (flow, step) = session
        .access_token_step_http(flow, &today, &sp, &failure())
        .unwrap();
    assert_eq!(fetch_url(&step), "https://api.etrade.com/oauth/request_token");

    let (flow, step) = session
        .access_token_step_http(flow, &today, &sp, &ok_body("rt2", "rs2"))
        .unwrap();
    let url = match step {
        AuthStep::Prompt(url) => {
            prompts += 1;
            url
        },
        other => panic!("expected the prompt, got {}", step_name_auth(&other)),
    };
    assert_eq!(url, "https://us.etrade.com/e/t/etws/authorize?key=ckey&token=rt2");

    let (flow, step) = session.access_token_step_pin(flow, &sp, "24680");
    assert_eq!(fetch_url(&step), "https://api.etrade.com/oauth/access_token");

    let (_, step) = session
        .access_token_step_http(flow, &today, &sp, &ok_body("at", "as"))
        .unwrap();
    match step {
        AuthStep::Done(c) => {
            assert_eq!(c.key, "at");
            assert_eq!(c.secret, "as");
        },
        other => panic!("expected done, got {}", step_name_auth(&other)),
    }
    assert_eq!(prompts, 1);

    // the access token is cached now
    let store = session.into_store();
    assert_eq!(
        store.get("etradesandbox", "access_token_key").unwrap(),
        Some("at".to_string())
    );
    assert_eq!(
        store.get("etradesandbox", "access_token_secret").unwrap(),
        Some("as".to_string())
    );
}

/// A request token issued today is served from the cache: the first fetch
/// is the renewal, not the request-token endpoint.
#[test]
fn same_day_request_token_skips_the_network() {
    let mut session = session_with_consumer();
    {
        let session = &mut session;
        // seed the cache through the normal acquisition path
        let sp = signing();
        let today = today();
        let (flow, step) = session.access_token_start(&today, &sp).unwrap();
        assert_eq!(fetch_url(&step), "https://api.etrade.com/oauth/request_token");
        let (_flow, _step) = session
            .access_token_step_http(flow, &today, &sp, &ok_body("cached-rt", "cached-rs"))
            .unwrap();
    }
    // a new resolution on the same day goes straight to the renewal
    let (_, step) = session.access_token_start(&today(), &signing()).unwrap();
    assert_eq!(
        fetch_url(&step),
        "https://api.etrade.com/oauth/renew_access_token"
    );

    // the cached pair is returned unchanged
    let cached = session.request_token_cached(&today()).unwrap().unwrap();
    assert_eq!(cached.key, "cached-rt");
    assert_eq!(cached.secret, "cached-rs");
}

/// A request token issued yesterday is stale: a fresh network call is made.
#[test]
fn stale_request_token_forces_a_fresh_fetch() {
    let mut store = Memstore::new();
    store.put("etradesandbox", "apikey", "ckey").unwrap();
    store.put("etradesandbox", "secret", "csecret").unwrap();
    store.put("etradesandbox", "request_token_key", "old-rt").unwrap();
    store
        .put("etradesandbox", "request_token_secret", "old-rs")
        .unwrap();
    store
        .put("etradesandbox", "request_token_ts", "2021-06-14")
        .unwrap();
    let session = Session::new(Mode::Sandbox, store);
    assert!(session.request_token_cached(&today()).unwrap().is_none());
    let (_, step) = session.access_token_start(&today(), &signing()).unwrap();
    assert_eq!(fetch_url(&step), "https://api.etrade.com/oauth/request_token");
}

fn session_with_access_token() -> Session<Memstore> {
    let mut store = Memstore::new();
    store.put("etradesandbox", "apikey", "ckey").unwrap();
    store.put("etradesandbox", "secret", "csecret").unwrap();
    store.put("etradesandbox", "access_token_key", "atk").unwrap();
    store
        .put("etradesandbox", "access_token_secret", "ats")
        .unwrap();
    Session::new(Mode::Sandbox, store)
}

fn response(status: u16, content_type: Option<&str>, body: &[u8]) -> HttpResponse {
    HttpResponse {
        status: Some(status),
        content_type: content_type.map(|c| c.to_string()),
        body: body.to_vec(),
    }
}

fn send_fetch(step: &SendStep) -> &SignedRequest {
    match step {
        SendStep::Fetch(req) => req,
        _ => panic!("expected a fetch"),
    }
}

/// A `401` is retried exactly once after invalidating, and the retried
/// call's success payload is returned.
#[test]
fn unauthorized_response_is_retried_once_and_succeeds() {
    let mut session = session_with_access_token();
    let sp = signing();
    let today = today();

    let (flow, step) = session
        .send_start(&Method::Get, "/v1/accounts/list", vec![], None, &today, &sp)
        .unwrap();
    let req = send_fetch(&step);
    assert_eq!(req.url, "https://apisb.etrade.com/v1/accounts/list");
    assert!(req.accept_json);

    // first answer: 401.  The cached tokens are dropped and re-acquisition
    // starts from the request-token endpoint.
    let (flow, step) = session
        .send_step_http(flow, &today, &sp, response(401, None, b""))
        .unwrap();
    assert_eq!(
        send_fetch(&step).url,
        "https://api.etrade.com/oauth/request_token"
    );

    // drive the re-acquisition: request token, renewal succeeds
    let (flow, step) = session
        .send_step_http(flow, &today, &sp, response(200, None, b"oauth_token=rt&oauth_token_secret=rs"))
        .unwrap();
    assert_eq!(
        send_fetch(&step).url,
        "https://api.etrade.com/oauth/renew_access_token"
    );
    let (flow, step) = session
        .send_step_http(flow, &today, &sp, response(200, None, b"oauth_token=at2&oauth_token_secret=as2"))
        .unwrap();
    // the API call is reissued with the fresh token
    assert_eq!(
        send_fetch(&step).url,
        "https://apisb.etrade.com/v1/accounts/list"
    );

    // second answer: success
    let (_, step) = session
        .send_step_http(
            flow,
            &today,
            &sp,
            response(200, Some("application/json"), b"{\"a\":1}"),
        )
        .unwrap();
    match step {
        SendStep::Done(resp) => {
            assert_eq!(resp.kind, ContentKind::Json);
            assert_eq!(resp.body, b"{\"a\":1}".to_vec());
        },
        _ => panic!("expected the payload"),
    }
}

/// A second consecutive `401` is fatal: the call fails with
/// `AuthRetryExhausted` and no third attempt is offered.
#[test]
fn second_unauthorized_response_exhausts_the_retry() {
    let mut session = session_with_access_token();
    let sp = signing();
    let today = today();

    let (flow, _) = session
        .send_start(&Method::Get, "/v1/accounts/list", vec![], None, &today, &sp)
        .unwrap();
    let (flow, _) = session
        .send_step_http(flow, &today, &sp, response(401, None, b""))
        .unwrap();
    let (flow, _) = session
        .send_step_http(flow, &today, &sp, response(200, None, b"oauth_token=rt&oauth_token_secret=rs"))
        .unwrap();
    let (flow, _) = session
        .send_step_http(flow, &today, &sp, response(200, None, b"oauth_token=at2&oauth_token_secret=as2"))
        .unwrap();
    let (flow, step) = session
        .send_step_http(flow, &today, &sp, response(401, None, b""))
        .unwrap();
    match step {
        SendStep::Failed(Error::AuthRetryExhausted) => {},
        _ => panic!("expected the retry to be exhausted"),
    }
    assert!(matches!(flow.phase, etrade::session::SendPhase::Finished));
}

/// A success response is dispatched on its declared content type: JSON and
/// XML are handed to the caller, anything else is refused.
#[test]
fn content_type_dispatch() {
    let sp = signing();
    let today = today();

    // application/json
    let mut session = session_with_access_token();
    let (flow, _) = session
        .send_start(&Method::Get, "/v1/x", vec![], None, &today, &sp)
        .unwrap();
    let (_, step) = session
        .send_step_http(
            flow,
            &today,
            &sp,
            response(200, Some("application/json"), b"{\"a\":1}"),
        )
        .unwrap();
    match step {
        SendStep::Done(ApiResponse { kind, body }) => {
            assert_eq!(kind, ContentKind::Json);
            let value: serde_json::Value = serde_json::from_slice(&body).unwrap();
            assert_eq!(value.get("a").unwrap().as_i64(), Some(1));
        },
        _ => panic!("expected the payload"),
    }

    // application/xml
    let mut session = session_with_access_token();
    let (flow, _) = session
        .send_start(&Method::Get, "/v1/x", vec![], None, &today, &sp)
        .unwrap();
    let (_, step) = session
        .send_step_http(
            flow,
            &today,
            &sp,
            response(200, Some("application/xml"), b"<r><a>1</a></r>"),
        )
        .unwrap();
    match step {
        SendStep::Done(ApiResponse { kind, body }) => {
            assert_eq!(kind, ContentKind::Xml);
            assert_eq!(body, b"<r><a>1</a></r>".to_vec());
        },
        _ => panic!("expected the payload"),
    }

    // a missing content type counts as JSON
    let mut session = session_with_access_token();
    let (flow, _) = session
        .send_start(&Method::Get, "/v1/x", vec![], None, &today, &sp)
        .unwrap();
    let (_, step) = session
        .send_step_http(flow, &today, &sp, response(200, None, b"{}"))
        .unwrap();
    match step {
        SendStep::Done(ApiResponse { kind, .. }) => assert_eq!(kind, ContentKind::Json),
        _ => panic!("expected the payload"),
    }

    // anything else is refused
    let mut session = session_with_access_token();
    let (flow, _) = session
        .send_start(&Method::Get, "/v1/x", vec![], None, &today, &sp)
        .unwrap();
    let (_, step) = session
        .send_step_http(flow, &today, &sp, response(200, Some("text/plain"), b"hi"))
        .unwrap();
    match step {
        SendStep::Failed(Error::UnsupportedContentType { content_type }) => {
            assert_eq!(content_type, "text/plain");
        },
        _ => panic!("expected the content type to be refused"),
    }
}

/// A non-success, non-authentication response carries the structured error
/// envelope.
#[test]
fn business_errors_surface_code_and_message() {
    let mut session = session_with_access_token();
    let sp = signing();
    let today = today();
    let (flow, _) = session
        .send_start(&Method::Get, "/v1/x", vec![], None, &today, &sp)
        .unwrap();
    let (_, step) = session
        .send_step_http(
            flow,
            &today,
            &sp,
            response(
                400,
                Some("application/xml"),
                b"<Error><code>100</code><message>bad request</message></Error>",
            ),
        )
        .unwrap();
    match step {
        SendStep::Failed(Error::ApiError { code, message }) => {
            assert_eq!(code, 100);
            assert_eq!(message, "bad request");
        },
        _ => panic!("expected the structured error"),
    }
}

/// A transport failure surfaces as such.
#[test]
fn transport_failures_are_reported() {
    let mut session = session_with_access_token();
    let sp = signing();
    let today = today();
    let (flow, _) = session
        .send_start(&Method::Get, "/v1/x", vec![], None, &today, &sp)
        .unwrap();
    let (_, step) = session
        .send_step_http(
            flow,
            &today,
            &sp,
            HttpResponse { status: None, content_type: None, body: Vec::new() },
        )
        .unwrap();
    assert!(matches!(step, SendStep::Failed(Error::TransportError)));
}

/// A GET's parameters are signed and serialized in canonical order.
#[test]
fn get_parameters_become_a_sorted_query_string() {
    let session = session_with_access_token();
    let sp = signing();
    let today = today();
    let (_, step) = session
        .send_start(
            &Method::Get,
            "/v1/market/quote",
            vec![
                ("b".to_string(), "2".to_string()),
                ("a".to_string(), "1 x".to_string()),
            ],
            None,
            &today,
            &sp,
        )
        .unwrap();
    let req = send_fetch(&step);
    assert_eq!(
        req.url,
        "https://apisb.etrade.com/v1/market/quote?a=1+x&b=2"
    );
}

/// A POST keeps its body and signs no parameters.
#[test]
fn post_bodies_are_passed_through() {
    let session = session_with_access_token();
    let sp = signing();
    let today = today();
    let (_, step) = session
        .send_start(
            &Method::Post,
            "/v1/orders/place",
            vec![],
            Some(b"{\"orderType\":\"EQ\"}".to_vec()),
            &today,
            &sp,
        )
        .unwrap();
    let req = send_fetch(&step);
    assert_eq!(req.url, "https://apisb.etrade.com/v1/orders/place");
    assert_eq!(req.body.as_deref(), Some(b"{\"orderType\":\"EQ\"}".as_slice()));
    assert_eq!(req.method, Method::Post);
}

/// A malformed token-endpoint body is an upstream authentication error and
/// leaves the store unchanged.
#[test]
fn malformed_token_response_is_an_upstream_error() {
    let mut session = session_with_consumer();
    let outcome = HttpOutcome { ok: true, body: b"not a form".to_vec() };
    match session.request_token_complete(&today(), &outcome) {
        Err(Error::UpstreamAuthError) => {},
        _ => panic!("expected an upstream auth error"),
    }
    let store = session.into_store();
    assert_eq!(store.get("etradesandbox", "request_token_key").unwrap(), None);
}

/// A cached access token is trusted outright: resolution finishes without
/// any network step.
#[test]
fn cached_access_token_is_used_without_a_network_call() {
    let session = session_with_access_token();
    let (flow, step) = session.access_token_start(&today(), &signing()).unwrap();
    match step {
        AuthStep::Done(c) => {
            assert_eq!(c.key, "atk");
            assert_eq!(c.secret, "ats");
        },
        other => panic!("expected done, got {}", step_name_auth(&other)),
    }
    assert!(matches!(flow.phase, etrade::session::AuthPhase::Finished));
}

/// A freshly fetched request token is cached together with today's date, so
/// the next lookup on the same day finds it.
#[test]
fn request_token_completion_caches_for_today() {
    let mut session = session_with_consumer();
    let token = session
        .request_token_complete(&today(), &ok_body("fresh-rt", "fresh-rs"))
        .unwrap();
    assert_eq!(token.key, "fresh-rt");
    assert_eq!(token.secret, "fresh-rs");
    let cached = session.request_token_cached(&today()).unwrap().unwrap();
    assert_eq!(cached.key, "fresh-rt");
    assert_eq!(cached.secret, "fresh-rs");
    let store = session.into_store();
    assert_eq!(
        store.get("etradesandbox", "request_token_ts").unwrap(),
        Some("2021-06-15".to_string())
    );
}

/// The renewal and exchange completions persist the access token.
#[test]
fn access_token_completion_persists_the_token() {
    let mut session = session_with_consumer();
    let token = session.access_token_complete(&ok_body("new-at", "new-as")).unwrap();
    assert_eq!(token.key, "new-at");
    assert_eq!(token.secret, "new-as");
    let store = session.into_store();
    assert_eq!(
        store.get("etradesandbox", "access_token_key").unwrap(),
        Some("new-at".to_string())
    );
    assert_eq!(
        store.get("etradesandbox", "access_token_secret").unwrap(),
        Some("new-as".to_string())
    );
}

/// Token values arrive form-encoded and are decoded before being stored.
#[test]
fn token_responses_are_form_decoded() {
    let mut session = session_with_consumer();
    let outcome = HttpOutcome {
        ok: true,
        body: b"oauth_token=a%2Fb&oauth_token_secret=c+d".to_vec(),
    };
    let token = session.request_token_complete(&today(), &outcome).unwrap();
    assert_eq!(token.key, "a/b");
    assert_eq!(token.secret, "c d");
}
