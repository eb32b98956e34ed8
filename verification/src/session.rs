//! The session: credential lifecycle and the request dispatcher.
//!
//! A session owns a credential store and a mode (sandbox or live).  It keeps
//! no other state: the token lifecycle is driven entirely by what the store
//! holds, so a process may be restarted at any point.
//!
//! Network transfer is the caller's job.  Each operation either finishes
//! immediately or hands back a [`SignedRequest`] to perform (or a URL to show
//! the user); the caller feeds the outcome back in.  The flow types
//! [`AuthFlow`] and [`SendFlow`] carry the state between those steps, and
//! their transitions carry contracts, so the retry and fallback policy is
//! verified rather than tested into shape.

use vstd::prelude::*;

verus! {

use crate::Credentials;
use crate::Mode;
use crate::Store;
use crate::StoreError;
use crate::date::Date;
use crate::date::date_str;
use crate::date::format_date;
use crate::date::parse_date;
use crate::date::parsed_date;
use crate::date::valid_date;
use crate::params::PairSpec;
use crate::params::find_pair;
use crate::params::pairs_view;
use crate::params::parse_pairs;
use crate::params::parse_query;
use crate::params::lookup;
use crate::params::canonical;
use crate::params::query_string;
use crate::signer::opt_view;
use crate::signer::Method;
use crate::signer::append_k_token;
use crate::signer::append_k_token_secret;
use crate::signer::append_oob_value;
use crate::signer::ascii_chars_of;
use crate::signer::authorization_bytes;
use crate::signer::build_authorization;
use crate::signer::k_token;
use crate::signer::k_token_secret;
use crate::signer::oob_value;
use crate::util::bytes_to_string;
use crate::util::str_bytes;
use crate::util::str_eq;
use crate::util::utf8;
use vstd::utf8::decode_utf8;
use vstd::utf8::valid_utf8;

/// Why a session operation failed.
#[derive(Debug, Clone)]
pub enum Error {
    /// A consumer credential half is absent from the store; configuration
    /// error, never retried.
    MissingCredential { key: String },
    /// An OAuth endpoint call failed: transport error, non-success status,
    /// or a body that does not parse as token credentials.
    UpstreamAuthError,
    /// A second consecutive authentication failure after one
    /// invalidate-and-retry cycle.
    AuthRetryExhausted,
    /// A structured business error from a non-success API response.
    ApiError { code: i64, message: String },
    /// A success response whose declared content type is neither JSON nor
    /// XML.
    UnsupportedContentType { content_type: String },
    /// The connection itself failed.
    TransportError,
    /// A non-success response whose body is not the error envelope.
    InvalidResponse,
    /// The credential store failed.
    Store(StoreError),
}

/// The three fixed OAuth endpoints, plus the page where a user authorizes a
/// request token.
pub struct UrlConfig {
    pub request_token_url: &'static str,
    pub access_token_url: &'static str,
    pub renew_access_token_url: &'static str,
}

/// The authorization page URL for a consumer key and request token.
pub open spec fn authorize_url_chars(key: Seq<char>, token: Seq<char>) -> Seq<char> {
    "https://us.etrade.com/e/t/etws/authorize?key="@ + key + "&token="@ + token
}

impl UrlConfig {
    /// The page the user must visit to authorize a request token.
    pub fn authorize_url(&self, key: &str, token: &str) -> (r: String)
        ensures
            r@ == authorize_url_chars(key@, token@),
    {
        let mut s = "https://us.etrade.com/e/t/etws/authorize?key=".to_owned();
        s.append(key);
        s.append("&token=");
        s.append(token);
        s
    }
}

impl Default for UrlConfig {
    /// The production OAuth endpoints.
    fn default() -> (r: UrlConfig)
        ensures
            r.request_token_url@ == "https://api.etrade.com/oauth/request_token"@,
            r.access_token_url@ == "https://api.etrade.com/oauth/access_token"@,
            r.renew_access_token_url@ == "https://api.etrade.com/oauth/renew_access_token"@,
    {
        UrlConfig {
            request_token_url: "https://api.etrade.com/oauth/request_token",
            access_token_url: "https://api.etrade.com/oauth/access_token",
            renew_access_token_url: "https://api.etrade.com/oauth/renew_access_token",
        }
    }
}

/// A source of the interactive verifier code: shows the authorization URL to
/// the user and returns the PIN they obtained.  Implemented by the host; a
/// terminal prompt in the usual case.
pub trait CallbackProvider {
    fn verifier_code(&self, url: &str) -> Result<String, Error>;
}

/// One HTTP request, fully prepared: the caller only has to transmit it.
pub struct SignedRequest {
    pub method: Method,
    /// The complete URL, query string included.
    pub url: String,
    /// The value for the `Authorization` header.
    pub authorization: String,
    /// Whether to send `Accept: application/json` (the API calls do, the
    /// OAuth token endpoints do not).
    pub accept_json: bool,
    /// The request body, if any.
    pub body: Option<Vec<u8>>,
}

/// The per-request signing inputs that come from outside the session: a
/// fresh nonce and the current Unix time.
pub struct SignerParams {
    pub nonce: String,
    pub timestamp: u64,
}

/// What came back from transmitting a request to an OAuth token endpoint:
/// whether the status was a success, and the response body.  A transport
/// failure is reported as `ok == false` with an empty body.
pub struct HttpOutcome {
    pub ok: bool,
    pub body: Vec<u8>,
}

/// A response to an API call, as the dispatcher needs it: status code,
/// declared content type, body bytes.  `None` for the status means the
/// transport itself failed.
pub struct HttpResponse {
    pub status: Option<u16>,
    pub content_type: Option<String>,
    pub body: Vec<u8>,
}

/// The namespace that scopes stored credentials for a mode.
pub open spec fn namespace_of(mode: Mode) -> Seq<char> {
    match mode {
        Mode::Sandbox => "etradesandbox"@,
        Mode::Live => "etrade"@,
    }
}

/// The base URL of the API for a mode.
pub open spec fn base_url_of(mode: Mode) -> Seq<char> {
    match mode {
        Mode::Sandbox => "https://apisb.etrade.com"@,
        Mode::Live => "https://api.etrade.com"@,
    }
}

/// A stored-credential map with the five token keys of a namespace removed;
/// what invalidation leaves behind.
pub open spec fn cleared(
    m: Map<(Seq<char>, Seq<char>), Seq<char>>,
    ns: Seq<char>,
) -> Map<(Seq<char>, Seq<char>), Seq<char>> {
    m.remove((ns, "access_token_key"@)).remove((ns, "access_token_secret"@)).remove(
        (ns, "request_token_key"@),
    ).remove((ns, "request_token_secret"@)).remove((ns, "request_token_ts"@))
}

/// Whether none of the five token keys is present.
pub open spec fn tokens_absent(m: Map<(Seq<char>, Seq<char>), Seq<char>>, ns: Seq<char>) -> bool {
    &&& !m.dom().contains((ns, "access_token_key"@))
    &&& !m.dom().contains((ns, "access_token_secret"@))
    &&& !m.dom().contains((ns, "request_token_key"@))
    &&& !m.dom().contains((ns, "request_token_secret"@))
    &&& !m.dom().contains((ns, "request_token_ts"@))
}

/// Invalidation removes all five token keys.
pub proof fn lemma_cleared_tokens_absent(m: Map<(Seq<char>, Seq<char>), Seq<char>>, ns: Seq<char>)
    ensures
        tokens_absent(cleared(m, ns), ns),
{
    reveal_strlit("access_token_key");
    reveal_strlit("access_token_secret");
    reveal_strlit("request_token_key");
    reveal_strlit("request_token_secret");
    reveal_strlit("request_token_ts");
    assert("access_token_key"@[0] == 'a' && "request_token_key"@[0] == 'r');
    assert("access_token_key"@.len() == 16 && "access_token_secret"@.len() == 19
        && "request_token_key"@.len() == 17 && "request_token_secret"@.len() == 20
        && "request_token_ts"@.len() == 16);
}

/// Invalidating twice leaves the same store as invalidating once.
pub proof fn lemma_invalidate_idempotent(
    m: Map<(Seq<char>, Seq<char>), Seq<char>>,
    ns: Seq<char>,
)
    ensures
        cleared(cleared(m, ns), ns) == cleared(m, ns),
{
    assert(cleared(cleared(m, ns), ns) =~= cleared(m, ns));
}

/// A session against one environment: the credential store, the mode that
/// picks namespace and base URL, and the fixed endpoint configuration.
pub struct Session<T: Store> {
    store: T,
    mode: Mode,
    urls: UrlConfig,
}

impl<T: Store> Session<T> {
    /// The mode this session operates in.
    pub closed spec fn mode(&self) -> Mode {
        self.mode
    }

    /// What the credential store holds.
    pub closed spec fn stored(&self) -> Map<(Seq<char>, Seq<char>), Seq<char>> {
        self.store.contents()
    }

    /// The namespace scoping this session's stored credentials.
    pub open spec fn ns(&self) -> Seq<char> {
        namespace_of(self.mode())
    }

    /// Creates a session over the given store.
    pub fn new(mode: Mode, store: T) -> (r: Session<T>)
        ensures
            r.mode() == mode,
            r.stored() == store.contents(),
    {
        Session { store, mode, urls: UrlConfig::default() }
    }

    /// Gives the credential store back, ending the session.
    pub fn into_store(self) -> (r: T)
        ensures
            r.contents() == self.stored(),
    {
        self.store
    }

    /// The base URL for this session's API calls.
    pub fn base_url(&self) -> (r: &'static str)
        ensures
            r@ == base_url_of(self.mode()),
    {
        match self.mode {
            Mode::Sandbox => "https://apisb.etrade.com",
            Mode::Live => "https://api.etrade.com",
        }
    }

    /// The namespace under which this session stores credentials.
    fn namespace(&self) -> (r: &'static str)
        ensures
            r@ == self.ns(),
    {
        match self.mode {
            Mode::Sandbox => "etradesandbox",
            Mode::Live => "etrade",
        }
    }

    /// Stores the application's consumer key and secret.
    pub fn initialize(&mut self, key: &str, secret: &str) -> (r: Result<(), Error>)
        ensures
            r is Ok ==> final(self).stored() == old(self).stored().insert(
                (old(self).ns(), "apikey"@),
                key@,
            ).insert((old(self).ns(), "secret"@), secret@),
            r is Err ==> (final(self).stored() == old(self).stored() || final(self).stored()
                == old(self).stored().insert((old(self).ns(), "apikey"@), key@)),
            r is Err ==> r matches Err(Error::Store(_)),
            final(self).mode() == old(self).mode(),
    {
        let ns = self.namespace();
        match self.store.put(ns, "apikey", key) {
            Ok(_) => {},
            Err(e) => {
                return Err(Error::Store(e));
            },
        }
        match self.store.put(ns, "secret", secret) {
            Ok(_) => {},
            Err(e) => {
                return Err(Error::Store(e));
            },
        }
        Ok(())
    }

    /// Fetches the consumer credentials; fails with `MissingCredential` when
    /// either half is absent.
    pub fn consumer(&self) -> (r: Result<Credentials, Error>)
        ensures
            match r {
                Ok(c) => {
                    &&& self.stored().dom().contains((self.ns(), "apikey"@))
                    &&& self.stored().dom().contains((self.ns(), "secret"@))
                    &&& c.key@ == self.stored()[(self.ns(), "apikey"@)]
                    &&& c.secret@ == self.stored()[(self.ns(), "secret"@)]
                },
                Err(e) => {
                    ||| e matches Error::Store(_)
                    ||| (e matches Error::MissingCredential { key } && ((key@ == "apikey"@
                        && !self.stored().dom().contains((self.ns(), "apikey"@))) || (key@
                        == "secret"@ && !self.stored().dom().contains((self.ns(), "secret"@)))))
                },
            },
            !(r matches Err(Error::Store(_))) ==> (r is Ok <==> (self.stored().dom().contains(
                (self.ns(), "apikey"@),
            ) && self.stored().dom().contains((self.ns(), "secret"@)))),
    {
        let ns = self.namespace();
        let key = match self.store.get(ns, "apikey") {
            Ok(Some(v)) => v,
            Ok(None) => {
                return Err(Error::MissingCredential { key: "apikey".to_owned() });
            },
            Err(e) => {
                return Err(Error::Store(e));
            },
        };
        let secret = match self.store.get(ns, "secret") {
            Ok(Some(v)) => v,
            Ok(None) => {
                return Err(Error::MissingCredential { key: "secret".to_owned() });
            },
            Err(e) => {
                return Err(Error::Store(e));
            },
        };
        Ok(Credentials::new(key, secret))
    }

    /// Deletes all five cached token values, best effort: every deletion is
    /// attempted, and the first failure (if any) is reported.
    pub fn invalidate(&mut self) -> (r: Result<(), Error>)
        ensures
            r is Ok ==> final(self).stored() == cleared(old(self).stored(), old(self).ns()),
            r is Err ==> r matches Err(Error::Store(_)),
            cleared(final(self).stored(), old(self).ns()) == cleared(
                old(self).stored(),
                old(self).ns(),
            ),
            tokens_absent(old(self).stored(), old(self).ns()) ==> r is Ok && final(self).stored()
                == old(self).stored(),
            final(self).mode() == old(self).mode(),
    {
        let ns = self.namespace();
        let ghost before = self.stored();
        let r1 = self.store.del(ns, "access_token_key");
        let r2 = self.store.del(ns, "access_token_secret");
        let r3 = self.store.del(ns, "request_token_key");
        let r4 = self.store.del(ns, "request_token_secret");
        let r5 = self.store.del(ns, "request_token_ts");
        proof {
            assert(cleared(self.stored(), old(self).ns()) =~= cleared(before, old(self).ns()));
            if tokens_absent(before, old(self).ns()) {
                assert(self.stored() =~= before);
            }
            if r1 is Ok && r2 is Ok && r3 is Ok && r4 is Ok && r5 is Ok {
                assert(self.stored() =~= cleared(before, old(self).ns()));
            }
        }
        match (r1, r2, r3, r4, r5) {
            (Ok(_), Ok(_), Ok(_), Ok(_), Ok(_)) => Ok(()),
            (Err(e), _, _, _, _) => Err(Error::Store(e)),
            (_, Err(e), _, _, _) => Err(Error::Store(e)),
            (_, _, Err(e), _, _) => Err(Error::Store(e)),
            (_, _, _, Err(e), _) => Err(Error::Store(e)),
            (_, _, _, _, Err(e)) => Err(Error::Store(e)),
        }
    }
}

/// The access token held in the store, if both halves are present.
pub open spec fn cached_access(
    m: Map<(Seq<char>, Seq<char>), Seq<char>>,
    ns: Seq<char>,
) -> Option<(Seq<char>, Seq<char>)> {
    if m.dom().contains((ns, "access_token_key"@)) && m.dom().contains(
        (ns, "access_token_secret"@),
    ) {
        Some((m[(ns, "access_token_key"@)], m[(ns, "access_token_secret"@)]))
    } else {
        None
    }
}

/// The request token held in the store, if both halves are present and its
/// issue date is today's date.  A missing or malformed issue date counts as
/// absent.
pub open spec fn cached_request_token(
    m: Map<(Seq<char>, Seq<char>), Seq<char>>,
    ns: Seq<char>,
    today: Date,
) -> Option<(Seq<char>, Seq<char>)> {
    if m.dom().contains((ns, "request_token_key"@)) && m.dom().contains(
        (ns, "request_token_secret"@),
    ) && m.dom().contains((ns, "request_token_ts"@)) && parsed_date(m[(ns, "request_token_ts"@)])
        == Some(today) {
        Some((m[(ns, "request_token_key"@)], m[(ns, "request_token_secret"@)]))
    } else {
        None
    }
}

/// The credentials in a token-endpoint response body: the first
/// `oauth_token` and `oauth_token_secret` form fields, both valid UTF-8.
pub open spec fn parsed_token_response(body: Seq<u8>) -> Option<(Seq<char>, Seq<char>)> {
    let ps = parse_pairs(body);
    match (find_pair(ps, k_token()), find_pair(ps, k_token_secret())) {
        (Some(t), Some(s)) => if valid_utf8(t) && valid_utf8(s) {
            Some((decode_utf8(t), decode_utf8(s)))
        } else {
            None
        },
        _ => None,
    }
}

/// What a token-endpoint exchange yielded: credentials only when the call
/// succeeded and the body parses.
pub open spec fn http_token(ok: bool, body: Seq<u8>) -> Option<(Seq<char>, Seq<char>)> {
    if ok {
        parsed_token_response(body)
    } else {
        None
    }
}

/// The authorization header of a signed GET to one of the three OAuth token
/// endpoints.
pub open spec fn token_endpoint_header(
    url: Seq<char>,
    ck: Seq<char>,
    cs: Seq<char>,
    with_callback: bool,
    nonce: Seq<char>,
    timestamp: u64,
    token: Option<(Seq<char>, Seq<char>)>,
    verifier: Option<Seq<char>>,
) -> Seq<char> {
    ascii_chars_of(
        authorization_bytes(
            Method::Get.bytes(),
            utf8(url),
            Seq::empty(),
            utf8(ck),
            utf8(cs),
            if with_callback {
                Some(oob_value())
            } else {
                None
            },
            utf8(nonce),
            timestamp,
            match token {
                Some(t) => Some((utf8(t.0), utf8(t.1))),
                None => None,
            },
            match verifier {
                Some(v) => Some(utf8(v)),
                None => None,
            },
        ),
    )
}

/// Whether a prepared request is the signed bodyless GET described by the
/// given URL and header.
pub open spec fn req_matches(req: SignedRequest, url: Seq<char>, header: Seq<char>) -> bool {
    &&& req.method is Get
    &&& req.url@ == url
    &&& req.authorization@ == header
    &&& req.accept_json == false
    &&& req.body is None
}

impl<T: Store> Session<T> {
    /// The signed request that asks for a fresh request token
    /// (`oauth_callback=oob`).
    pub fn request_token_request(&self, consumer: &Credentials, signing: &SignerParams) -> (r:
        SignedRequest)
        ensures
            req_matches(
                r,
                "https://api.etrade.com/oauth/request_token"@,
                token_endpoint_header(
                    "https://api.etrade.com/oauth/request_token"@,
                    consumer.key@,
                    consumer.secret@,
                    true,
                    signing.nonce@,
                    signing.timestamp,
                    None,
                    None,
                ),
            ),
    {
        let query: Vec<(Vec<u8>, Vec<u8>)> = Vec::new();
        let mut oob: Vec<u8> = Vec::new();
        append_oob_value(&mut oob);
        let callback = Some(oob);
        let ck = str_bytes(consumer.key.as_str());
        let cs = str_bytes(consumer.secret.as_str());
        let nonce = str_bytes(signing.nonce.as_str());
        let no_token: Option<(Vec<u8>, Vec<u8>)> = None;
        let no_verifier: Option<Vec<u8>> = None;
        proof {
            assert(pairs_view(query@) =~= Seq::<PairSpec>::empty());
        }
        let auth = build_authorization(
            &Method::Get,
            "https://api.etrade.com/oauth/request_token",
            &query,
            ck.as_slice(),
            cs.as_slice(),
            &callback,
            nonce.as_slice(),
            signing.timestamp,
            &no_token,
            &no_verifier,
        );
        SignedRequest {
            method: Method::Get,
            url: "https://api.etrade.com/oauth/request_token".to_owned(),
            authorization: auth,
            accept_json: false,
            body: None,
        }
    }

    /// The signed request that renews an access token from a still-valid
    /// request token.
    pub fn renew_access_token_request(
        &self,
        consumer: &Credentials,
        request_token: &Credentials,
        signing: &SignerParams,
    ) -> (r: SignedRequest)
        ensures
            req_matches(
                r,
                "https://api.etrade.com/oauth/renew_access_token"@,
                token_endpoint_header(
                    "https://api.etrade.com/oauth/renew_access_token"@,
                    consumer.key@,
                    consumer.secret@,
                    false,
                    signing.nonce@,
                    signing.timestamp,
                    Some((request_token.key@, request_token.secret@)),
                    None,
                ),
            ),
    {
        let query: Vec<(Vec<u8>, Vec<u8>)> = Vec::new();
        let ck = str_bytes(consumer.key.as_str());
        let cs = str_bytes(consumer.secret.as_str());
        let nonce = str_bytes(signing.nonce.as_str());
        let token = Some(
            (str_bytes(request_token.key.as_str()), str_bytes(request_token.secret.as_str())),
        );
        let no_callback: Option<Vec<u8>> = None;
        let no_verifier: Option<Vec<u8>> = None;
        proof {
            assert(pairs_view(query@) =~= Seq::<PairSpec>::empty());
        }
        let auth = build_authorization(
            &Method::Get,
            "https://api.etrade.com/oauth/renew_access_token",
            &query,
            ck.as_slice(),
            cs.as_slice(),
            &no_callback,
            nonce.as_slice(),
            signing.timestamp,
            &token,
            &no_verifier,
        );
        SignedRequest {
            method: Method::Get,
            url: "https://api.etrade.com/oauth/renew_access_token".to_owned(),
            authorization: auth,
            accept_json: false,
            body: None,
        }
    }

    /// The signed request that exchanges an authorized request token and the
    /// user's verifier code for an access token.
    pub fn create_access_token_request(
        &self,
        consumer: &Credentials,
        request_token: &Credentials,
        verifier: &str,
        signing: &SignerParams,
    ) -> (r: SignedRequest)
        ensures
            req_matches(
                r,
                "https://api.etrade.com/oauth/access_token"@,
                token_endpoint_header(
                    "https://api.etrade.com/oauth/access_token"@,
                    consumer.key@,
                    consumer.secret@,
                    false,
                    signing.nonce@,
                    signing.timestamp,
                    Some((request_token.key@, request_token.secret@)),
                    Some(verifier@),
                ),
            ),
    {
        let query: Vec<(Vec<u8>, Vec<u8>)> = Vec::new();
        let ck = str_bytes(consumer.key.as_str());
        let cs = str_bytes(consumer.secret.as_str());
        let nonce = str_bytes(signing.nonce.as_str());
        let token = Some(
            (str_bytes(request_token.key.as_str()), str_bytes(request_token.secret.as_str())),
        );
        let no_callback: Option<Vec<u8>> = None;
        let ver = Some(str_bytes(verifier));
        proof {
            assert(pairs_view(query@) =~= Seq::<PairSpec>::empty());
        }
        let auth = build_authorization(
            &Method::Get,
            "https://api.etrade.com/oauth/access_token",
            &query,
            ck.as_slice(),
            cs.as_slice(),
            &no_callback,
            nonce.as_slice(),
            signing.timestamp,
            &token,
            &ver,
        );
        SignedRequest {
            method: Method::Get,
            url: "https://api.etrade.com/oauth/access_token".to_owned(),
            authorization: auth,
            accept_json: false,
            body: None,
        }
    }

    /// The request token cached in the store, provided it was issued today.
    pub fn request_token_cached(&self, today: &Date) -> (r: Result<Option<Credentials>, Error>)
        ensures
            match r {
                Ok(Some(c)) => cached_request_token(self.stored(), self.ns(), *today) == Some(
                    (c.key@, c.secret@),
                ),
                Ok(None) => cached_request_token(self.stored(), self.ns(), *today) is None,
                Err(e) => e matches Error::Store(_),
            },
    {
        let ns = self.namespace();
        let key = match self.store.get(ns, "request_token_key") {
            Ok(v) => v,
            Err(e) => {
                return Err(Error::Store(e));
            },
        };
        let secret = match self.store.get(ns, "request_token_secret") {
            Ok(v) => v,
            Err(e) => {
                return Err(Error::Store(e));
            },
        };
        let issued = match self.store.get(ns, "request_token_ts") {
            Ok(v) => v,
            Err(e) => {
                return Err(Error::Store(e));
            },
        };
        match (key, secret, issued) {
            (Some(k), Some(s), Some(ts)) => {
                match parse_date(ts.as_str()) {
                    Some(d) => {
                        if d == *today {
                            Ok(Some(Credentials::new(k, s)))
                        } else {
                            Ok(None)
                        }
                    },
                    None => Ok(None),
                }
            },
            _ => Ok(None),
        }
    }

    /// Consumes a request-token response: parses the returned credentials,
    /// caches them with today's date, and returns them.  Any failed or
    /// malformed response is an `UpstreamAuthError`.
    pub fn request_token_complete(&mut self, today: &Date, outcome: &HttpOutcome) -> (r: Result<
        Credentials,
        Error,
    >)
        requires
            valid_date(*today),
        ensures
            final(self).mode() == old(self).mode(),
            cleared(final(self).stored(), old(self).ns()) == cleared(
                old(self).stored(),
                old(self).ns(),
            ),
            match http_token(outcome.ok, outcome.body@) {
                Some(t) => match r {
                    Ok(c) => c.key@ == t.0 && c.secret@ == t.1 && final(self).stored() == old(
                        self,
                    ).stored().insert((old(self).ns(), "request_token_key"@), t.0).insert(
                        (old(self).ns(), "request_token_secret"@),
                        t.1,
                    ).insert((old(self).ns(), "request_token_ts"@), date_str(*today))
                        && cached_request_token(final(self).stored(), old(self).ns(), *today)
                        == Some(t),
                    Err(e) => e matches Error::Store(_),
                },
                None => r matches Err(Error::UpstreamAuthError) && final(self).stored() == old(
                    self,
                ).stored(),
            },
    {
        let ghost ns_spec = old(self).ns();
        if !outcome.ok {
            return Err(Error::UpstreamAuthError);
        }
        let pairs = parse_query(outcome.body.as_slice());
        let mut token_key: Vec<u8> = Vec::new();
        append_k_token(&mut token_key);
        let mut secret_key: Vec<u8> = Vec::new();
        append_k_token_secret(&mut secret_key);
        let tok = match lookup(&pairs, token_key.as_slice()) {
            Some(v) => crate::util::bytes_of(v.as_slice()),
            None => {
                return Err(Error::UpstreamAuthError);
            },
        };
        let sec = match lookup(&pairs, secret_key.as_slice()) {
            Some(v) => crate::util::bytes_of(v.as_slice()),
            None => {
                return Err(Error::UpstreamAuthError);
            },
        };
        let ghost tok_bytes = tok@;
        let ghost sec_bytes = sec@;
        let tok_str = match bytes_to_string(tok) {
            Some(s) => s,
            None => {
                return Err(Error::UpstreamAuthError);
            },
        };
        let sec_str = match bytes_to_string(sec) {
            Some(s) => s,
            None => {
                return Err(Error::UpstreamAuthError);
            },
        };
        proof {
            vstd::utf8::encode_utf8_decode_utf8(tok_str@);
            vstd::utf8::encode_utf8_decode_utf8(sec_str@);
            assert(parsed_token_response(outcome.body@) == Some((tok_str@, sec_str@)));
        }
        let ns = self.namespace();
        match self.store.put(ns, "request_token_key", tok_str.as_str()) {
            Ok(_) => {},
            Err(e) => {
                proof {
                    assert(cleared(self.stored(), ns_spec) =~= cleared(
                        old(self).stored(),
                        ns_spec,
                    ));
                }
                return Err(Error::Store(e));
            },
        }
        match self.store.put(ns, "request_token_secret", sec_str.as_str()) {
            Ok(_) => {},
            Err(e) => {
                proof {
                    assert(cleared(self.stored(), ns_spec) =~= cleared(
                        old(self).stored(),
                        ns_spec,
                    ));
                }
                return Err(Error::Store(e));
            },
        }
        let issued = format_date(today);
        match self.store.put(ns, "request_token_ts", issued.as_str()) {
            Ok(_) => {},
            Err(e) => {
                proof {
                    assert(cleared(self.stored(), ns_spec) =~= cleared(
                        old(self).stored(),
                        ns_spec,
                    ));
                }
                return Err(Error::Store(e));
            },
        }
        proof {
            assert(cleared(self.stored(), ns_spec) =~= cleared(old(self).stored(), ns_spec));
            crate::date::lemma_date_round_trip(*today);
            reveal_strlit("request_token_key");
            reveal_strlit("request_token_secret");
            reveal_strlit("request_token_ts");
            assert("request_token_key"@.len() == 17 && "request_token_secret"@.len() == 20
                && "request_token_ts"@.len() == 16);
        }
        Ok(Credentials::new(tok_str, sec_str))
    }

    /// Consumes an access-token response (renewal or exchange): parses the
    /// returned credentials, caches them, and returns them.
    pub fn access_token_complete(&mut self, outcome: &HttpOutcome) -> (r: Result<
        Credentials,
        Error,
    >)
        ensures
            final(self).mode() == old(self).mode(),
            cleared(final(self).stored(), old(self).ns()) == cleared(
                old(self).stored(),
                old(self).ns(),
            ),
            match http_token(outcome.ok, outcome.body@) {
                Some(t) => match r {
                    Ok(c) => c.key@ == t.0 && c.secret@ == t.1 && final(self).stored() == old(
                        self,
                    ).stored().insert((old(self).ns(), "access_token_key"@), t.0).insert(
                        (old(self).ns(), "access_token_secret"@),
                        t.1,
                    ) && cached_access(final(self).stored(), old(self).ns()) == Some(t),
                    Err(e) => e matches Error::Store(_),
                },
                None => r matches Err(Error::UpstreamAuthError) && final(self).stored() == old(
                    self,
                ).stored(),
            },
    {
        let ghost ns_spec = old(self).ns();
        if !outcome.ok {
            return Err(Error::UpstreamAuthError);
        }
        let pairs = parse_query(outcome.body.as_slice());
        let mut token_key: Vec<u8> = Vec::new();
        append_k_token(&mut token_key);
        let mut secret_key: Vec<u8> = Vec::new();
        append_k_token_secret(&mut secret_key);
        let tok = match lookup(&pairs, token_key.as_slice()) {
            Some(v) => crate::util::bytes_of(v.as_slice()),
            None => {
                return Err(Error::UpstreamAuthError);
            },
        };
        let sec = match lookup(&pairs, secret_key.as_slice()) {
            Some(v) => crate::util::bytes_of(v.as_slice()),
            None => {
                return Err(Error::UpstreamAuthError);
            },
        };
        let tok_str = match bytes_to_string(tok) {
            Some(s) => s,
            None => {
                return Err(Error::UpstreamAuthError);
            },
        };
        let sec_str = match bytes_to_string(sec) {
            Some(s) => s,
            None => {
                return Err(Error::UpstreamAuthError);
            },
        };
        proof {
            vstd::utf8::encode_utf8_decode_utf8(tok_str@);
            vstd::utf8::encode_utf8_decode_utf8(sec_str@);
            assert(parsed_token_response(outcome.body@) == Some((tok_str@, sec_str@)));
        }
        let ns = self.namespace();
        match self.store.put(ns, "access_token_key", tok_str.as_str()) {
            Ok(_) => {},
            Err(e) => {
                proof {
                    assert(cleared(self.stored(), ns_spec) =~= cleared(
                        old(self).stored(),
                        ns_spec,
                    ));
                }
                return Err(Error::Store(e));
            },
        }
        match self.store.put(ns, "access_token_secret", sec_str.as_str()) {
            Ok(_) => {},
            Err(e) => {
                proof {
                    assert(cleared(self.stored(), ns_spec) =~= cleared(
                        old(self).stored(),
                        ns_spec,
                    ));
                }
                return Err(Error::Store(e));
            },
        }
        proof {
            assert(cleared(self.stored(), ns_spec) =~= cleared(old(self).stored(), ns_spec));
            reveal_strlit("access_token_key");
            reveal_strlit("access_token_secret");
            assert("access_token_key"@.len() == 16 && "access_token_secret"@.len() == 19);
        }
        Ok(Credentials::new(tok_str, sec_str))
    }
}

/// Where an access-token acquisition stands between two steps.
pub enum AuthPhase {
    /// Awaiting the request-token response; a renewal attempt comes next.
    AwaitFirstToken,
    /// Awaiting the renewal response for this request token.
    AwaitRenew(Credentials),
    /// Awaiting the request-token response inside the full interactive flow.
    AwaitFullToken,
    /// Awaiting the user's verifier code for this request token.
    AwaitPin(Credentials),
    /// Awaiting the access-token exchange for this request token.
    AwaitExchange(Credentials),
    /// The flow has ended.
    Finished,
}

/// An access-token acquisition in progress.
pub struct AuthFlow {
    pub consumer: Credentials,
    pub phase: AuthPhase,
}

/// What the driver must do next to move an acquisition along.
pub enum AuthStep {
    /// The access token is resolved.
    Done(Credentials),
    /// Transmit this request and feed the outcome back in.
    Fetch(SignedRequest),
    /// Show this authorization URL to the user and feed the verifier code
    /// back in.
    Prompt(String),
    /// The acquisition failed.
    Failed(Error),
}

/// The identifier/secret views of a credential pair.
pub open spec fn cred_chars(c: Credentials) -> (Seq<char>, Seq<char>) {
    (c.key@, c.secret@)
}

/// The phases of an acquisition, by credential values.
pub enum AuthPhaseSpec {
    FirstToken,
    Renew((Seq<char>, Seq<char>)),
    FullToken,
    Pin((Seq<char>, Seq<char>)),
    Exchange((Seq<char>, Seq<char>)),
    Settled,
}

/// The actions an acquisition step can demand, by value.
pub enum AuthActSpec {
    FetchRequestToken,
    FetchRenew((Seq<char>, Seq<char>)),
    FetchExchange((Seq<char>, Seq<char>), Seq<char>),
    ShowPrompt(Seq<char>),
    Finish((Seq<char>, Seq<char>)),
    Fail,
}

pub open spec fn phase_view(p: AuthPhase) -> AuthPhaseSpec {
    match p {
        AuthPhase::AwaitFirstToken => AuthPhaseSpec::FirstToken,
        AuthPhase::AwaitRenew(rt) => AuthPhaseSpec::Renew(cred_chars(rt)),
        AuthPhase::AwaitFullToken => AuthPhaseSpec::FullToken,
        AuthPhase::AwaitPin(rt) => AuthPhaseSpec::Pin(cred_chars(rt)),
        AuthPhase::AwaitExchange(rt) => AuthPhaseSpec::Exchange(cred_chars(rt)),
        AuthPhase::Finished => AuthPhaseSpec::Settled,
    }
}

/// The phases whose next event is an HTTP outcome.
pub open spec fn expects_http(p: AuthPhaseSpec) -> bool {
    p is FirstToken || p is Renew || p is FullToken || p is Exchange
}

/// Where an acquisition starts, given the store: the cached access token if
/// there is one, otherwise a renewal from a cached same-day request token,
/// otherwise a fresh request token.
pub open spec fn auth_start_spec(
    m: Map<(Seq<char>, Seq<char>), Seq<char>>,
    ns: Seq<char>,
    today: Date,
) -> (AuthPhaseSpec, AuthActSpec) {
    match cached_access(m, ns) {
        Some(at) => (AuthPhaseSpec::Settled, AuthActSpec::Finish(at)),
        None => match cached_request_token(m, ns, today) {
            Some(rt) => (AuthPhaseSpec::Renew(rt), AuthActSpec::FetchRenew(rt)),
            None => (AuthPhaseSpec::FirstToken, AuthActSpec::FetchRequestToken),
        },
    }
}

/// How an acquisition moves on an HTTP outcome: a failed request token leads
/// into the full interactive flow, a failed renewal likewise, a failed
/// exchange is fatal.
pub open spec fn auth_token_next(
    p: AuthPhaseSpec,
    consumer_key: Seq<char>,
    token: Option<(Seq<char>, Seq<char>)>,
) -> (AuthPhaseSpec, AuthActSpec) {
    match p {
        AuthPhaseSpec::FirstToken => match token {
            Some(rt) => (AuthPhaseSpec::Renew(rt), AuthActSpec::FetchRenew(rt)),
            None => (AuthPhaseSpec::FullToken, AuthActSpec::FetchRequestToken),
        },
        AuthPhaseSpec::Renew(_) => match token {
            Some(at) => (AuthPhaseSpec::Settled, AuthActSpec::Finish(at)),
            None => (AuthPhaseSpec::FullToken, AuthActSpec::FetchRequestToken),
        },
        AuthPhaseSpec::FullToken => match token {
            Some(rt) => (
                AuthPhaseSpec::Pin(rt),
                AuthActSpec::ShowPrompt(authorize_url_chars(consumer_key, rt.0)),
            ),
            None => (AuthPhaseSpec::Settled, AuthActSpec::Fail),
        },
        AuthPhaseSpec::Exchange(_) => match token {
            Some(at) => (AuthPhaseSpec::Settled, AuthActSpec::Finish(at)),
            None => (AuthPhaseSpec::Settled, AuthActSpec::Fail),
        },
        _ => (p, AuthActSpec::Fail),
    }
}

/// How an acquisition moves on the user's verifier code.
pub open spec fn auth_pin_next(p: AuthPhaseSpec, pin: Seq<char>) -> (AuthPhaseSpec, AuthActSpec) {
    match p {
        AuthPhaseSpec::Pin(rt) => (
            AuthPhaseSpec::Exchange(rt),
            AuthActSpec::FetchExchange(rt, pin),
        ),
        _ => (p, AuthActSpec::Fail),
    }
}

/// Whether an emitted step realizes an action, to the byte.
pub open spec fn step_matches(
    step: AuthStep,
    act: AuthActSpec,
    consumer: (Seq<char>, Seq<char>),
    nonce: Seq<char>,
    timestamp: u64,
) -> bool {
    match act {
        AuthActSpec::FetchRequestToken => step matches AuthStep::Fetch(req) && req_matches(
            req,
            "https://api.etrade.com/oauth/request_token"@,
            token_endpoint_header(
                "https://api.etrade.com/oauth/request_token"@,
                consumer.0,
                consumer.1,
                true,
                nonce,
                timestamp,
                None,
                None,
            ),
        ),
        AuthActSpec::FetchRenew(rt) => step matches AuthStep::Fetch(req) && req_matches(
            req,
            "https://api.etrade.com/oauth/renew_access_token"@,
            token_endpoint_header(
                "https://api.etrade.com/oauth/renew_access_token"@,
                consumer.0,
                consumer.1,
                false,
                nonce,
                timestamp,
                Some(rt),
                None,
            ),
        ),
        AuthActSpec::FetchExchange(rt, pin) => step matches AuthStep::Fetch(req) && req_matches(
            req,
            "https://api.etrade.com/oauth/access_token"@,
            token_endpoint_header(
                "https://api.etrade.com/oauth/access_token"@,
                consumer.0,
                consumer.1,
                false,
                nonce,
                timestamp,
                Some(rt),
                Some(pin),
            ),
        ),
        AuthActSpec::ShowPrompt(url) => step matches AuthStep::Prompt(u) && u@ == url,
        AuthActSpec::Finish(at) => step matches AuthStep::Done(c) && cred_chars(c) == at,
        AuthActSpec::Fail => step matches AuthStep::Failed(_),
    }
}

impl<T: Store> Session<T> {
    /// Begins resolving an access token: returns the cached one outright, or
    /// the first request to transmit.
    pub fn access_token_start(&self, today: &Date, signing: &SignerParams) -> (r: Result<
        (AuthFlow, AuthStep),
        Error,
    >)
        ensures
            match r {
                Ok(p) => {
                    let (ph, act) = auth_start_spec(self.stored(), self.ns(), *today);
                    &&& self.stored().dom().contains((self.ns(), "apikey"@))
                    &&& self.stored().dom().contains((self.ns(), "secret"@))
                    &&& cred_chars(p.0.consumer) == (
                        self.stored()[(self.ns(), "apikey"@)],
                        self.stored()[(self.ns(), "secret"@)],
                    )
                    &&& phase_view(p.0.phase) == ph
                    &&& step_matches(
                        p.1,
                        act,
                        cred_chars(p.0.consumer),
                        signing.nonce@,
                        signing.timestamp,
                    )
                },
                Err(e) => {
                    ||| e matches Error::Store(_)
                    ||| (e matches Error::MissingCredential { key } && ((key@ == "apikey"@
                        && !self.stored().dom().contains((self.ns(), "apikey"@))) || (key@
                        == "secret"@ && !self.stored().dom().contains((self.ns(), "secret"@)))))
                },
            },
    {
        let consumer = match self.consumer() {
            Ok(c) => c,
            Err(e) => {
                return Err(e);
            },
        };
        let ns = self.namespace();
        let access_key = match self.store.get(ns, "access_token_key") {
            Ok(v) => v,
            Err(e) => {
                return Err(Error::Store(e));
            },
        };
        let access_secret = match self.store.get(ns, "access_token_secret") {
            Ok(v) => v,
            Err(e) => {
                return Err(Error::Store(e));
            },
        };
        match (access_key, access_secret) {
            (Some(k), Some(s)) => {
                return Ok(
                    (
                        AuthFlow { consumer, phase: AuthPhase::Finished },
                        AuthStep::Done(Credentials::new(k, s)),
                    ),
                );
            },
            _ => {},
        }
        match self.request_token_cached(today) {
            Ok(Some(rt)) => {
                let req = self.renew_access_token_request(&consumer, &rt, signing);
                Ok((AuthFlow { consumer, phase: AuthPhase::AwaitRenew(rt) }, AuthStep::Fetch(req)))
            },
            Ok(None) => {
                let req = self.request_token_request(&consumer, signing);
                Ok((AuthFlow { consumer, phase: AuthPhase::AwaitFirstToken }, AuthStep::Fetch(req)))
            },
            Err(e) => Err(e),
        }
    }

    /// Moves an acquisition along after an HTTP outcome arrived.
    ///
    /// A failed (or malformed, or unstorable) request token or renewal falls
    /// through to the full interactive flow after clearing the cached
    /// tokens; a failure inside the full flow ends the acquisition.
    pub fn access_token_step_http(
        &mut self,
        flow: AuthFlow,
        today: &Date,
        signing: &SignerParams,
        outcome: &HttpOutcome,
    ) -> (r: Result<(AuthFlow, AuthStep), Error>)
        requires
            valid_date(*today),
            expects_http(phase_view(flow.phase)),
        ensures
            final(self).mode() == old(self).mode(),
            cleared(final(self).stored(), old(self).ns()) == cleared(
                old(self).stored(),
                old(self).ns(),
            ),
            r matches Err(e) ==> e matches Error::Store(_),
            match r {
                Ok(p) => {
                    let got = http_token(outcome.ok, outcome.body@);
                    let ck = cred_chars(flow.consumer);
                    &&& cred_chars(p.0.consumer) == ck
                    &&& {
                        ||| (got is Some && {
                            let (ph, act) = auth_token_next(phase_view(flow.phase), ck.0, got);
                            phase_view(p.0.phase) == ph && step_matches(
                                p.1,
                                act,
                                ck,
                                signing.nonce@,
                                signing.timestamp,
                            )
                        })
                        ||| {
                            let (ph, act) = auth_token_next(phase_view(flow.phase), ck.0, None);
                            phase_view(p.0.phase) == ph && step_matches(
                                p.1,
                                act,
                                ck,
                                signing.nonce@,
                                signing.timestamp,
                            )
                        }
                    }
                    &&& (phase_view(p.0.phase) is FullToken ==> final(self).stored() == cleared(
                        old(self).stored(),
                        old(self).ns(),
                    ))
                    &&& (p.1 matches AuthStep::Done(c) ==> got == Some(cred_chars(c))
                        && final(self).stored() == old(self).stored().insert(
                        (old(self).ns(), "access_token_key"@),
                        cred_chars(c).0,
                    ).insert((old(self).ns(), "access_token_secret"@), cred_chars(c).1))
                    &&& (phase_view(flow.phase) is FirstToken && phase_view(p.0.phase) is Renew
                        ==> got is Some && final(self).stored() == old(self).stored().insert(
                        (old(self).ns(), "request_token_key"@),
                        got.unwrap().0,
                    ).insert((old(self).ns(), "request_token_secret"@), got.unwrap().1).insert(
                        (old(self).ns(), "request_token_ts"@),
                        date_str(*today),
                    ))
                },
                Err(_) => true,
            },
    {
        let AuthFlow { consumer, phase } = flow;
        match phase {
            AuthPhase::AwaitFirstToken => {
                match self.request_token_complete(today, outcome) {
                    Ok(rt) => {
                        let req = self.renew_access_token_request(&consumer, &rt, signing);
                        Ok(
                            (
                                AuthFlow { consumer, phase: AuthPhase::AwaitRenew(rt) },
                                AuthStep::Fetch(req),
                            ),
                        )
                    },
                    Err(_) => {
                        match self.invalidate() {
                            Ok(_) => {},
                            Err(e) => {
                                return Err(e);
                            },
                        }
                        let req = self.request_token_request(&consumer, signing);
                        Ok(
                            (
                                AuthFlow { consumer, phase: AuthPhase::AwaitFullToken },
                                AuthStep::Fetch(req),
                            ),
                        )
                    },
                }
            },
            AuthPhase::AwaitRenew(_) => {
                match self.access_token_complete(outcome) {
                    Ok(at) => {
                        Ok((AuthFlow { consumer, phase: AuthPhase::Finished }, AuthStep::Done(at)))
                    },
                    Err(_) => {
                        match self.invalidate() {
                            Ok(_) => {},
                            Err(e) => {
                                return Err(e);
                            },
                        }
                        let req = self.request_token_request(&consumer, signing);
                        Ok(
                            (
                                AuthFlow { consumer, phase: AuthPhase::AwaitFullToken },
                                AuthStep::Fetch(req),
                            ),
                        )
                    },
                }
            },
            AuthPhase::AwaitFullToken => {
                match self.request_token_complete(today, outcome) {
                    Ok(rt) => {
                        let urls = UrlConfig::default();
                        let url = urls.authorize_url(consumer.key.as_str(), rt.key.as_str());
                        Ok(
                            (
                                AuthFlow { consumer, phase: AuthPhase::AwaitPin(rt) },
                                AuthStep::Prompt(url),
                            ),
                        )
                    },
                    Err(e) => {
                        Ok((AuthFlow { consumer, phase: AuthPhase::Finished }, AuthStep::Failed(e)))
                    },
                }
            },
            AuthPhase::AwaitExchange(_) => {
                match self.access_token_complete(outcome) {
                    Ok(at) => {
                        Ok((AuthFlow { consumer, phase: AuthPhase::Finished }, AuthStep::Done(at)))
                    },
                    Err(e) => {
                        Ok((AuthFlow { consumer, phase: AuthPhase::Finished }, AuthStep::Failed(e)))
                    },
                }
            },
            _ => vstd::pervasive::unreached(),
        }
    }

    /// Moves an acquisition along after the user supplied the verifier code:
    /// the exchange request for the authorized request token.
    pub fn access_token_step_pin(&self, flow: AuthFlow, signing: &SignerParams, pin: &str) -> (r: (
        AuthFlow,
        AuthStep,
    ))
        requires
            phase_view(flow.phase) is Pin,
        ensures
            ({
                let (ph, act) = auth_pin_next(phase_view(flow.phase), pin@);
                &&& cred_chars(r.0.consumer) == cred_chars(flow.consumer)
                &&& phase_view(r.0.phase) == ph
                &&& step_matches(
                    r.1,
                    act,
                    cred_chars(flow.consumer),
                    signing.nonce@,
                    signing.timestamp,
                )
            }),
    {
        let AuthFlow { consumer, phase } = flow;
        match phase {
            AuthPhase::AwaitPin(rt) => {
                let req = self.create_access_token_request(&consumer, &rt, pin, signing);
                (
                    AuthFlow { consumer, phase: AuthPhase::AwaitExchange(rt) },
                    AuthStep::Fetch(req),
                )
            },
            _ => vstd::pervasive::unreached(),
        }
    }
}

/// With no cached tokens, resolving an access token is forced through the
/// sequence: request token, renewal attempt, and — the renewal having
/// failed — the full interactive flow: a fresh request token, one prompt to
/// the user, and the exchange.  The prompt is shown exactly once.
pub proof fn lemma_fresh_acquisition_flow(
    m: Map<(Seq<char>, Seq<char>), Seq<char>>,
    ns: Seq<char>,
    today: Date,
    ck: Seq<char>,
    rt1: (Seq<char>, Seq<char>),
    rt2: (Seq<char>, Seq<char>),
    pin: Seq<char>,
    at: (Seq<char>, Seq<char>),
)
    requires
        tokens_absent(m, ns),
    ensures
        ({
            let s0 = auth_start_spec(m, ns, today);
            let s1 = auth_token_next(s0.0, ck, Some(rt1));
            let s2 = auth_token_next(s1.0, ck, None);
            let s3 = auth_token_next(s2.0, ck, Some(rt2));
            let s4 = auth_pin_next(s3.0, pin);
            let s5 = auth_token_next(s4.0, ck, Some(at));
            &&& s0 == (AuthPhaseSpec::FirstToken, AuthActSpec::FetchRequestToken)
            &&& s1 == (AuthPhaseSpec::Renew(rt1), AuthActSpec::FetchRenew(rt1))
            &&& s2 == (AuthPhaseSpec::FullToken, AuthActSpec::FetchRequestToken)
            &&& s3 == (
                AuthPhaseSpec::Pin(rt2),
                AuthActSpec::ShowPrompt(authorize_url_chars(ck, rt2.0)),
            )
            &&& s4 == (AuthPhaseSpec::Exchange(rt2), AuthActSpec::FetchExchange(rt2, pin))
            &&& s5 == (AuthPhaseSpec::Settled, AuthActSpec::Finish(at))
            &&& !(s0.1 is ShowPrompt) && !(s1.1 is ShowPrompt) && !(s2.1 is ShowPrompt) && (s3.1
                is ShowPrompt) && !(s4.1 is ShowPrompt) && !(s5.1 is ShowPrompt)
        }),
{
}

/// The bytes of `"<code>"`: the opening tag of the error code.
pub open spec fn code_open_tag() -> Seq<u8> {
    seq![0x3Cu8, 0x63u8, 0x6Fu8, 0x64u8, 0x65u8, 0x3Eu8]
}

/// Appends the bytes of `"<code>"`.
fn append_code_open_tag(out: &mut Vec<u8>)
    ensures
        final(out)@ == old(out)@ + code_open_tag(),
{
    out.push(0x3C);
    out.push(0x63);
    out.push(0x6F);
    out.push(0x64);
    out.push(0x65);
    out.push(0x3E);
    proof {
        assert(out@ =~= old(out)@ + code_open_tag());
    }
}

/// The bytes of `"</code>"`: the closing tag of the error code.
pub open spec fn code_close_tag() -> Seq<u8> {
    seq![0x3Cu8, 0x2Fu8, 0x63u8, 0x6Fu8, 0x64u8, 0x65u8, 0x3Eu8]
}

/// Appends the bytes of `"</code>"`.
fn append_code_close_tag(out: &mut Vec<u8>)
    ensures
        final(out)@ == old(out)@ + code_close_tag(),
{
    out.push(0x3C);
    out.push(0x2F);
    out.push(0x63);
    out.push(0x6F);
    out.push(0x64);
    out.push(0x65);
    out.push(0x3E);
    proof {
        assert(out@ =~= old(out)@ + code_close_tag());
    }
}

/// The bytes of `"<message>"`: the opening tag of the error message.
pub open spec fn message_open_tag() -> Seq<u8> {
    seq![0x3Cu8, 0x6Du8, 0x65u8, 0x73u8, 0x73u8, 0x61u8, 0x67u8, 0x65u8, 0x3Eu8]
}

/// Appends the bytes of `"<message>"`.
fn append_message_open_tag(out: &mut Vec<u8>)
    ensures
        final(out)@ == old(out)@ + message_open_tag(),
{
    out.push(0x3C);
    out.push(0x6D);
    out.push(0x65);
    out.push(0x73);
    out.push(0x73);
    out.push(0x61);
    out.push(0x67);
    out.push(0x65);
    out.push(0x3E);
    proof {
        assert(out@ =~= old(out)@ + message_open_tag());
    }
}

/// The bytes of `"</message>"`: the closing tag of the error message.
pub open spec fn message_close_tag() -> Seq<u8> {
    seq![0x3Cu8, 0x2Fu8, 0x6Du8, 0x65u8, 0x73u8, 0x73u8, 0x61u8, 0x67u8, 0x65u8, 0x3Eu8]
}

/// Appends the bytes of `"</message>"`.
fn append_message_close_tag(out: &mut Vec<u8>)
    ensures
        final(out)@ == old(out)@ + message_close_tag(),
{
    out.push(0x3C);
    out.push(0x2F);
    out.push(0x6D);
    out.push(0x65);
    out.push(0x73);
    out.push(0x73);
    out.push(0x61);
    out.push(0x67);
    out.push(0x65);
    out.push(0x3E);
    proof {
        assert(out@ =~= old(out)@ + message_close_tag());
    }
}

/// The index of the first occurrence of `p` in `s`, if any.
pub open spec fn find_sub(s: Seq<u8>, p: Seq<u8>) -> Option<int>
    decreases s.len(),
{
    if p.len() == 0 {
        Some(0)
    } else if s.len() < p.len() {
        None
    } else if s.take(p.len() as int) == p {
        Some(0)
    } else {
        match find_sub(s.drop_first(), p) {
            Some(i) => Some(i + 1),
            None => None,
        }
    }
}

proof fn lemma_find_sub_skip(s: Seq<u8>, p: Seq<u8>, i: int)
    requires
        0 <= i <= s.len(),
        p.len() > 0,
        forall|j: int|
            0 <= j < i && j + p.len() <= s.len() ==> #[trigger] s.subrange(
                j,
                j + p.len() as int,
            ) != p,
    ensures
        find_sub(s, p) == match find_sub(s.skip(i), p) {
            Some(k) => Some(k + i),
            None => None::<int>,
        },
    decreases i,
{
    if i == 0 {
        assert(s.skip(0) =~= s);
    } else {
        assert(s.len() >= 1);
        if s.len() < p.len() {
            assert(s.skip(i).len() < p.len());
        } else {
            assert(s.take(p.len() as int) =~= s.subrange(0, 0 + p.len() as int));
            assert(s.subrange(0, 0 + p.len() as int) != p);
            assert forall|j: int|
                0 <= j < i - 1 && j + p.len() <= s.drop_first().len() implies #[trigger] s.drop_first().subrange(
                j,
                j + p.len() as int,
            ) != p by {
                assert(s.drop_first().subrange(j, j + p.len() as int) =~= s.subrange(
                    j + 1,
                    j + 1 + p.len() as int,
                ));
            }
            lemma_find_sub_skip(s.drop_first(), p, i - 1);
            assert(s.drop_first().skip(i - 1) =~= s.skip(i));
        }
    }
}

/// Scans for the first occurrence of `p` in `s`.
fn find_sub_exec(s: &[u8], p: &[u8]) -> (r: Option<usize>)
    requires
        p@.len() >= 1,
    ensures
        match r {
            Some(i) => find_sub(s@, p@) == Some(i as int),
            None => find_sub(s@, p@) is None,
        },
{
    let n = s.len();
    let plen = p.len();
    if n < plen {
        return None;
    }
    let mut i: usize = 0;
    while i <= n - plen
        invariant
            n == s@.len(),
            plen == p@.len(),
            plen >= 1,
            n >= plen,
            0 <= i <= n - plen + 1,
            forall|j: int| 0 <= j < i ==> #[trigger] s@.subrange(j, j + p@.len() as int) != p@,
        decreases n - i,
    {
        if crate::util::bytes_eq(vstd::slice::slice_subrange(s, i, i + plen), p) {
            proof {
                lemma_find_sub_skip(s@, p@, i as int);
                let rest = s@.skip(i as int);
                assert(rest.take(p@.len() as int) =~= s@.subrange(i as int, i + p@.len() as int));
            }
            return Some(i);
        }
        proof {
            assert(s@.subrange(i as int, i + p@.len() as int) != p@);
        }
        i += 1;
    }
    proof {
        lemma_find_sub_skip(s@, p@, i as int);
        assert(s@.skip(i as int).len() < p@.len());
    }
    None
}

/// The text between the first occurrence of `open` and the next occurrence
/// of `close` after it.
pub open spec fn tag_text(s: Seq<u8>, open: Seq<u8>, close: Seq<u8>) -> Option<Seq<u8>> {
    match find_sub(s, open) {
        Some(i) => {
            let rest = s.skip(i + open.len() as int);
            match find_sub(rest, close) {
                Some(j) => Some(rest.take(j)),
                None => None,
            }
        },
        None => None,
    }
}

/// Extracts the text between a tag pair.
fn tag_text_exec(s: &[u8], open: &[u8], close: &[u8]) -> (r: Option<Vec<u8>>)
    requires
        open@.len() >= 1,
        close@.len() >= 1,
    ensures
        match r {
            Some(v) => tag_text(s@, open@, close@) == Some(v@),
            None => tag_text(s@, open@, close@) is None,
        },
{
    let i = match find_sub_exec(s, open) {
        Some(i) => i,
        None => {
            return None;
        },
    };
    let n = s.len();
    proof {
        lemma_find_sub_in_range(s@, open@);
        assert(i + open@.len() <= n);
    }
    let start = i + open.len();
    let rest = vstd::slice::slice_subrange(s, start, n);
    proof {
        assert(rest@ =~= s@.skip(start as int));
    }
    let j = match find_sub_exec(rest, close) {
        Some(j) => j,
        None => {
            return None;
        },
    };
    proof {
        lemma_find_sub_in_range(rest@, close@);
    }
    let text = crate::util::bytes_of(vstd::slice::slice_subrange(rest, 0, j));
    proof {
        assert(text@ =~= rest@.take(j as int));
    }
    Some(text)
}

/// A found occurrence lies within the sequence.
proof fn lemma_find_sub_in_range(s: Seq<u8>, p: Seq<u8>)
    ensures
        match find_sub(s, p) {
            Some(i) => 0 <= i && i + p.len() <= s.len(),
            None => true,
        },
    decreases s.len(),
{
    if s.len() >= p.len() && s.take(p.len() as int) != p {
        assert(p.len() > 0) by {
            if p.len() == 0 {
                assert(s.take(0) =~= p);
            }
        }
        lemma_find_sub_in_range(s.drop_first(), p);
    }
}

/// Whether every byte is a decimal digit.
pub open spec fn all_digits(s: Seq<u8>) -> bool {
    forall|i: int| 0 <= i < s.len() ==> 0x30 <= #[trigger] s[i] <= 0x39
}

/// The value of a decimal digit string, most significant first.
pub open spec fn dec_value(s: Seq<u8>) -> int
    decreases s.len(),
{
    if s.len() == 0 {
        0
    } else {
        dec_value(s.drop_last()) * 10 + (s.last() - 0x30)
    }
}

/// Ten to the given power.
pub open spec fn pow10(n: nat) -> int
    decreases n,
{
    if n == 0 {
        1
    } else {
        10 * pow10((n - 1) as nat)
    }
}

proof fn lemma_pow10_pos(n: nat)
    ensures
        pow10(n) >= 1,
    decreases n,
{
    if n > 0 {
        lemma_pow10_pos((n - 1) as nat);
    }
}

proof fn lemma_pow10_le(a: nat, b: nat)
    requires
        a <= b,
    ensures
        pow10(a) <= pow10(b),
    decreases b,
{
    if a < b {
        lemma_pow10_le(a, (b - 1) as nat);
        lemma_pow10_pos((b - 1) as nat);
    }
}

proof fn lemma_pow10_18()
    ensures
        pow10(18) == 1000000000000000000,
{
    reveal_with_fuel(pow10, 20);
}

proof fn lemma_dec_value_bound(s: Seq<u8>)
    requires
        all_digits(s),
    ensures
        0 <= dec_value(s) < pow10(s.len()),
    decreases s.len(),
{
    if s.len() > 0 {
        assert(all_digits(s.drop_last())) by {
            assert(forall|i: int|
                0 <= i < s.drop_last().len() ==> #[trigger] s.drop_last()[i] == s[i]);
        }
        lemma_dec_value_bound(s.drop_last());
        let d = dec_value(s.drop_last());
        let p = pow10(s.drop_last().len());
        assert(0 <= d * 10 && d * 10 <= (p - 1) * 10) by (nonlinear_arith)
            requires
                0 <= d < p,
        ;
    }
}

/// The integer denoted by an optionally signed digit string of at most
/// eighteen digits.
pub open spec fn parsed_int(s: Seq<u8>) -> Option<int> {
    let neg = s.len() > 0 && s[0] == 0x2D;
    let digits = if neg {
        s.skip(1)
    } else {
        s
    };
    if 1 <= digits.len() <= 18 && all_digits(digits) {
        Some(
            if neg {
                -dec_value(digits)
            } else {
                dec_value(digits)
            },
        )
    } else {
        None
    }
}

/// Parses an optionally signed decimal integer.
fn parse_i64(s: &[u8]) -> (r: Option<i64>)
    ensures
        match r {
            Some(v) => parsed_int(s@) == Some(v as int),
            None => parsed_int(s@) is None,
        },
{
    let n = s.len();
    if n == 0 {
        return None;
    }
    let neg = s[0] == 0x2D;
    let start: usize = if neg {
        1
    } else {
        0
    };
    let ghost digits = if neg {
        s@.skip(1)
    } else {
        s@
    };
    proof {
        if !neg {
            assert(s@.skip(0) =~= s@);
        }
    }
    let len = n - start;
    if len < 1 || len > 18 {
        return None;
    }
    let mut acc: u64 = 0;
    let mut i: usize = start;
    while i < n
        invariant
            n == s@.len(),
            start <= i <= n,
            start == if neg {
                1int
            } else {
                0int
            },
            digits == s@.skip(start as int),
            digits == if s@.len() > 0 && s@[0] == 0x2D {
                s@.skip(1)
            } else {
                s@
            },
            digits.len() == n - start,
            digits.len() <= 18,
            all_digits(digits.take(i - start)),
            acc == dec_value(digits.take(i - start)),
        decreases n - i,
    {
        let b = s[i];
        if b < 0x30 || b > 0x39 {
            proof {
                assert(digits[i - start] == s@[i as int]);
                assert(!all_digits(digits));
                assert(parsed_int(s@) is None);
            }
            return None;
        }
        proof {
            let pre = digits.take(i - start);
            lemma_dec_value_bound(pre);
            lemma_pow10_le(pre.len(), 17);
            lemma_pow10_le(17, 18);
            lemma_pow10_18();
            assert(acc < pow10(17));
            assert(10 * pow10(17) == pow10(18));
            assert(acc * 10 + 9 < pow10(18));
        }
        acc = acc * 10 + ((b - 0x30) as u64);
        proof {
            assert(digits.take(i + 1 - start).drop_last() =~= digits.take(i - start));
            assert(digits.take(i + 1 - start).last() == s@[i as int]);
            assert(all_digits(digits.take(i + 1 - start)));
        }
        i += 1;
    }
    proof {
        assert(digits.take(n - start) =~= digits);
        lemma_dec_value_bound(digits);
        lemma_pow10_le(digits.len(), 18);
        lemma_pow10_18();
    }
    if neg {
        Some(-(acc as i64))
    } else {
        Some(acc as i64)
    }
}

/// The structured error carried by a non-success API response.
#[derive(Debug, Clone, PartialEq)]
pub struct ErrorData {
    pub code: i64,
    pub message: String,
}

/// The code and message of an XML error envelope: the text between the
/// first `<code>` tag pair, read as a decimal integer, and the text between
/// the first `<message>` tag pair.
pub open spec fn parsed_error_envelope(body: Seq<u8>) -> Option<(int, Seq<char>)> {
    match (tag_text(body, code_open_tag(), code_close_tag()), tag_text(
        body,
        message_open_tag(),
        message_close_tag(),
    )) {
        (Some(cb), Some(mb)) => match parsed_int(cb) {
            Some(v) => if valid_utf8(mb) {
                Some((v, decode_utf8(mb)))
            } else {
                None
            },
            None => None,
        },
        _ => None,
    }
}

/// Parses the XML error envelope of a failed API response.
pub fn parse_error_envelope(body: &[u8]) -> (r: Option<ErrorData>)
    ensures
        match r {
            Some(e) => parsed_error_envelope(body@) == Some((e.code as int, e.message@)),
            None => parsed_error_envelope(body@) is None,
        },
{
    let mut code_open: Vec<u8> = Vec::new();
    append_code_open_tag(&mut code_open);
    let mut code_close: Vec<u8> = Vec::new();
    append_code_close_tag(&mut code_close);
    let mut message_open: Vec<u8> = Vec::new();
    append_message_open_tag(&mut message_open);
    let mut message_close: Vec<u8> = Vec::new();
    append_message_close_tag(&mut message_close);
    let code_bytes = match tag_text_exec(body, code_open.as_slice(), code_close.as_slice()) {
        Some(v) => v,
        None => {
            return None;
        },
    };
    let message_bytes = match tag_text_exec(
        body,
        message_open.as_slice(),
        message_close.as_slice(),
    ) {
        Some(v) => v,
        None => {
            return None;
        },
    };
    let code = match parse_i64(code_bytes.as_slice()) {
        Some(v) => v,
        None => {
            return None;
        },
    };
    let ghost message_view = message_bytes@;
    let message = match bytes_to_string(message_bytes) {
        Some(s) => s,
        None => {
            return None;
        },
    };
    proof {
        vstd::utf8::encode_utf8_decode_utf8(message@);
    }
    Some(ErrorData { code, message })
}

/// How a success response's body is encoded.
#[derive(Debug, Clone, Copy, PartialEq, Eq, Structural)]
pub enum ContentKind {
    Json,
    Xml,
}

/// The payload of a successful API call: the declared encoding, and the
/// body for the caller to deserialize.
pub struct ApiResponse {
    pub kind: ContentKind,
    pub body: Vec<u8>,
}

/// Where a dispatched call stands between two steps.
pub enum SendPhase {
    /// Still resolving the access token.
    Resolving(AuthFlow),
    /// The API request itself is in flight.
    AwaitResponse,
    /// The call has ended.
    Finished,
}

/// One API call in progress: the request being made, and whether the
/// one-shot retry after an authentication failure has been spent.
pub struct SendFlow {
    pub method: Method,
    pub path: String,
    pub params: Vec<(Vec<u8>, Vec<u8>)>,
    pub body: Option<Vec<u8>>,
    pub retried: bool,
    pub phase: SendPhase,
}

/// What the driver must do next to move a call along.
pub enum SendStep {
    /// Transmit this request and feed the response back in.
    Fetch(SignedRequest),
    /// Show this authorization URL to the user and feed the verifier code
    /// back in.
    Prompt(String),
    /// The call succeeded.
    Done(ApiResponse),
    /// The call failed.
    Failed(Error),
}

/// The byte pairs of decoded string parameters.
pub open spec fn str_pairs_bytes(ps: Seq<(String, String)>) -> Seq<PairSpec> {
    ps.map_values(|p: (String, String)| (utf8(p.0@), utf8(p.1@)))
}

/// The parameter set a call signs and serializes: the canonical form of the
/// given pairs for a GET, nothing otherwise (bodies are JSON, not form
/// data, and do not participate in the signature).
pub open spec fn send_params_spec(method: Method, ps: Seq<(String, String)>) -> Seq<PairSpec> {
    if method is Get {
        canonical(str_pairs_bytes(ps))
    } else {
        Seq::empty()
    }
}

/// The request URL without its query.
pub open spec fn api_bare_url(mode: Mode, path: Seq<char>) -> Seq<char> {
    base_url_of(mode) + path
}

/// The full request URL: the query string is appended for a parameterized
/// call.
pub open spec fn api_full_url(mode: Mode, path: Seq<char>, params: Seq<PairSpec>) -> Seq<char> {
    if params.len() == 0 {
        api_bare_url(mode, path)
    } else {
        api_bare_url(mode, path) + seq!['?'] + ascii_chars_of(query_string(params))
    }
}

/// The authorization header of an API call signed with consumer and access
/// credentials.
pub open spec fn api_header(
    mode: Mode,
    method: Method,
    path: Seq<char>,
    params: Seq<PairSpec>,
    consumer: (Seq<char>, Seq<char>),
    access: (Seq<char>, Seq<char>),
    nonce: Seq<char>,
    timestamp: u64,
) -> Seq<char> {
    ascii_chars_of(
        authorization_bytes(
            method.bytes(),
            utf8(api_bare_url(mode, path)),
            params,
            utf8(consumer.0),
            utf8(consumer.1),
            None,
            utf8(nonce),
            timestamp,
            Some((utf8(access.0), utf8(access.1))),
            None,
        ),
    )
}

/// Whether a prepared request is the described API call.
pub open spec fn api_req_matches(
    req: SignedRequest,
    mode: Mode,
    method: Method,
    path: Seq<char>,
    params: Seq<PairSpec>,
    consumer: (Seq<char>, Seq<char>),
    access: (Seq<char>, Seq<char>),
    nonce: Seq<char>,
    timestamp: u64,
    body: Option<Seq<u8>>,
) -> bool {
    &&& req.method == method
    &&& req.url@ == api_full_url(mode, path, params)
    &&& req.authorization@ == api_header(
        mode,
        method,
        path,
        params,
        consumer,
        access,
        nonce,
        timestamp,
    )
    &&& req.accept_json == true
    &&& opt_view(req.body) == body
}

/// The body encoding a response declares, when it is a supported one.  A
/// missing content type counts as JSON.
pub open spec fn content_kind_of(ct: Option<Seq<char>>) -> Option<ContentKind> {
    match ct {
        None => Some(ContentKind::Json),
        Some(c) => if c == "application/json"@ {
            Some(ContentKind::Json)
        } else if c == "application/xml"@ {
            Some(ContentKind::Xml)
        } else {
            None
        },
    }
}

/// Whether an API response reports success.
pub open spec fn response_ok(r: HttpResponse) -> bool {
    r.status matches Some(s) && s / 100 == 2
}

/// The view of an optional content type.
pub open spec fn ct_view(ct: Option<String>) -> Option<Seq<char>> {
    match ct {
        Some(c) => Some(c@),
        None => None,
    }
}

/// Whether a send flow's next event is an HTTP response.
pub open spec fn send_expects_http(f: SendFlow) -> bool {
    match f.phase {
        SendPhase::Resolving(af) => expects_http(phase_view(af.phase)),
        SendPhase::AwaitResponse => true,
        SendPhase::Finished => false,
    }
}

/// Whether an emitted send step realizes an acquisition action.
pub open spec fn send_step_matches(
    step: SendStep,
    act: AuthActSpec,
    consumer: (Seq<char>, Seq<char>),
    nonce: Seq<char>,
    timestamp: u64,
) -> bool {
    match step {
        SendStep::Fetch(req) => step_matches(AuthStep::Fetch(req), act, consumer, nonce, timestamp),
        SendStep::Prompt(u) => step_matches(
            AuthStep::Prompt(u),
            act,
            consumer,
            nonce,
            timestamp,
        ),
        SendStep::Failed(_) => act is Fail,
        SendStep::Done(_) => false,
    }
}

impl<T: Store> Session<T> {
    /// Builds the signed API request for one call.
    fn api_request(
        &self,
        method: &Method,
        path: &str,
        params: &Vec<(Vec<u8>, Vec<u8>)>,
        body: Option<Vec<u8>>,
        consumer: &Credentials,
        access: &Credentials,
        signing: &SignerParams,
    ) -> (r: SignedRequest)
        ensures
            api_req_matches(
                r,
                self.mode(),
                *method,
                path@,
                pairs_view(params@),
                cred_chars(*consumer),
                cred_chars(*access),
                signing.nonce@,
                signing.timestamp,
                opt_view(body),
            ),
    {
        let mut url = self.base_url().to_owned();
        url.append(path);
        let ck = str_bytes(consumer.key.as_str());
        let cs = str_bytes(consumer.secret.as_str());
        let nonce = str_bytes(signing.nonce.as_str());
        let token = Some((str_bytes(access.key.as_str()), str_bytes(access.secret.as_str())));
        let no_callback: Option<Vec<u8>> = None;
        let no_verifier: Option<Vec<u8>> = None;
        let auth = build_authorization(
            method,
            url.as_str(),
            params,
            ck.as_slice(),
            cs.as_slice(),
            &no_callback,
            nonce.as_slice(),
            signing.timestamp,
            &token,
            &no_verifier,
        );
        let full = if params.len() > 0 {
            let qs = crate::params::encode_query(params);
            proof {
                crate::signer::lemma_query_string_ascii(pairs_view(params@));
            }
            let qs_str = crate::util::ascii_to_string(qs);
            url.append("?");
            url.append(qs_str.as_str());
            proof {
                reveal_strlit("?");
                assert("?"@ =~= seq!['?']);
                assert(url@ =~= api_full_url(self.mode(), path@, pairs_view(params@)));
            }
            url
        } else {
            url
        };
        SignedRequest {
            method: *method,
            url: full,
            authorization: auth,
            accept_json: true,
            body,
        }
    }

    /// Begins one API call: resolves credentials and hands back the first
    /// request to transmit (the API call itself when an access token is
    /// cached, a token-endpoint call otherwise).
    ///
    /// For a GET the pairs become the signed, canonically ordered query
    /// string and the body is empty; for any other method the pairs are
    /// ignored and the body is sent as given.
    pub fn send_start(
        &self,
        method: &Method,
        path: &str,
        params: Vec<(String, String)>,
        body: Option<Vec<u8>>,
        today: &Date,
        signing: &SignerParams,
    ) -> (r: Result<(SendFlow, SendStep), Error>)
        ensures
            match r {
                Ok(p) => {
                    let qp = send_params_spec(*method, params@);
                    let m = self.stored();
                    let ns = self.ns();
                    let ck = (m[(ns, "apikey"@)], m[(ns, "secret"@)]);
                    &&& m.dom().contains((ns, "apikey"@))
                    &&& m.dom().contains((ns, "secret"@))
                    &&& p.0.method == *method
                    &&& p.0.path@ == path@
                    &&& pairs_view(p.0.params@) == qp
                    &&& opt_view(p.0.body) == (if *method is Get {
                        None
                    } else {
                        opt_view(body)
                    })
                    &&& p.0.retried == false
                    &&& match cached_access(m, ns) {
                        Some(at) => p.0.phase is AwaitResponse && (p.1 matches SendStep::Fetch(
                            req,
                        ) && api_req_matches(
                            req,
                            self.mode(),
                            *method,
                            path@,
                            qp,
                            ck,
                            at,
                            signing.nonce@,
                            signing.timestamp,
                            if *method is Get {
                                None
                            } else {
                                opt_view(body)
                            },
                        )),
                        None => p.0.phase matches SendPhase::Resolving(af) && cred_chars(af.consumer)
                            == ck && phase_view(af.phase) == auth_start_spec(m, ns, *today).0
                            && send_step_matches(
                            p.1,
                            auth_start_spec(m, ns, *today).1,
                            ck,
                            signing.nonce@,
                            signing.timestamp,
                        ),
                    }
                },
                Err(e) => {
                    ||| e matches Error::Store(_)
                    ||| e matches Error::MissingCredential { key }
                },
            },
    {
        let n = params.len();
        let mut bp: Vec<(Vec<u8>, Vec<u8>)> = Vec::new();
        let mut i: usize = 0;
        proof {
            assert(pairs_view(bp@) =~= str_pairs_bytes(params@.take(0)));
        }
        while i < n
            invariant
                n == params@.len(),
                0 <= i <= n,
                pairs_view(bp@) == str_pairs_bytes(params@.take(i as int)),
            decreases n - i,
        {
            let ghost before = pairs_view(bp@);
            bp.push((str_bytes(params[i].0.as_str()), str_bytes(params[i].1.as_str())));
            proof {
                let pv = pairs_view(bp@);
                let sv = str_pairs_bytes(params@.take(i + 1));
                assert(before.len() == params@.take(i as int).len());
                assert(pv.len() == bp@.len());
                assert(sv.len() == params@.take(i + 1).len());
                assert(pv.len() == sv.len());
                assert forall|j: int| 0 <= j < pv.len() implies pv[j] == sv[j] by {
                    assert(sv[j] == (
                        utf8(params@.take(i + 1)[j].0@),
                        utf8(params@.take(i + 1)[j].1@),
                    ));
                    if j < i {
                        assert(pv[j] == before[j]);
                        assert(before[j] == str_pairs_bytes(params@.take(i as int))[j]);
                        assert(str_pairs_bytes(params@.take(i as int))[j] == (
                            utf8(params@.take(i as int)[j].0@),
                            utf8(params@.take(i as int)[j].1@),
                        ));
                    } else {
                        assert(pv[j] == (bp@[j].0@, bp@[j].1@));
                    }
                }
                assert(pv =~= sv);
            }
            i += 1;
        }
        proof {
            assert(params@.take(n as int) =~= params@);
        }
        let is_get = match method {
            Method::Get => true,
            _ => false,
        };
        let qparams = if is_get {
            crate::params::canonicalize(bp)
        } else {
            let empty: Vec<(Vec<u8>, Vec<u8>)> = Vec::new();
            proof {
                assert(pairs_view(empty@) =~= Seq::<PairSpec>::empty());
            }
            empty
        };
        let send_body: Option<Vec<u8>> = if is_get {
            None
        } else {
            body
        };
        let (flow, step) = match self.access_token_start(today, signing) {
            Ok(p) => p,
            Err(e) => {
                return Err(e);
            },
        };
        match step {
            AuthStep::Done(at) => {
                let req_body = clone_opt_bytes(&send_body);
                let req = self.api_request(
                    method,
                    path,
                    &qparams,
                    req_body,
                    &flow.consumer,
                    &at,
                    signing,
                );
                Ok(
                    (
                        SendFlow {
                            method: *method,
                            path: path.to_owned(),
                            params: qparams,
                            body: send_body,
                            retried: false,
                            phase: SendPhase::AwaitResponse,
                        },
                        SendStep::Fetch(req),
                    ),
                )
            },
            AuthStep::Fetch(req) => {
                Ok(
                    (
                        SendFlow {
                            method: *method,
                            path: path.to_owned(),
                            params: qparams,
                            body: send_body,
                            retried: false,
                            phase: SendPhase::Resolving(flow),
                        },
                        SendStep::Fetch(req),
                    ),
                )
            },
            _ => vstd::pervasive::unreached(),
        }
    }
}

/// Copies an optional byte vector.
fn clone_opt_bytes(v: &Option<Vec<u8>>) -> (r: Option<Vec<u8>>)
    ensures
        opt_view(r) == opt_view(*v),
{
    match v {
        Some(b) => Some(crate::util::bytes_of(b.as_slice())),
        None => None,
    }
}

impl<T: Store> Session<T> {
    /// Moves a call along after an HTTP exchange: token-endpoint outcomes
    /// feed the embedded acquisition; the API response itself is classified,
    /// with exactly one silent invalidate-and-retry after a `401`.
    pub fn send_step_http(
        &mut self,
        flow: SendFlow,
        today: &Date,
        signing: &SignerParams,
        response: HttpResponse,
    ) -> (r: Result<(SendFlow, SendStep), Error>)
        requires
            valid_date(*today),
            send_expects_http(flow),
        ensures
            final(self).mode() == old(self).mode(),
            cleared(final(self).stored(), old(self).ns()) == cleared(
                old(self).stored(),
                old(self).ns(),
            ),
            r matches Ok(p) ==> p.0.method == flow.method && p.0.path@ == flow.path@ && pairs_view(
                p.0.params@,
            ) == pairs_view(flow.params@) && opt_view(p.0.body) == opt_view(flow.body),
            flow.phase matches SendPhase::Resolving(af) ==> r matches Ok(p) ==> {
                let got = http_token(response_ok(response), response.body@);
                let ck = cred_chars(af.consumer);
                &&& p.0.retried == flow.retried
                &&& {
                    ||| (got is Some && send_auth_advance(
                        p.0,
                        p.1,
                        af,
                        auth_token_next(phase_view(af.phase), ck.0, got),
                        old(self).mode(),
                        flow,
                        signing.nonce@,
                        signing.timestamp,
                    ))
                    ||| send_auth_advance(
                        p.0,
                        p.1,
                        af,
                        auth_token_next(phase_view(af.phase), ck.0, None),
                        old(self).mode(),
                        flow,
                        signing.nonce@,
                        signing.timestamp,
                    )
                }
            },
            flow.phase is AwaitResponse ==> {
                r matches Ok(p) ==> match response.status {
                None => p.0.phase is Finished && p.1 matches SendStep::Failed(
                    Error::TransportError,
                ),
                Some(s) => {
                    if s == 401 && !flow.retried {
                        &&& p.0.retried == true
                        &&& final(self).stored() == cleared(old(self).stored(), old(self).ns())
                        &&& (p.0.phase matches SendPhase::Resolving(af2) && phase_view(af2.phase)
                            is FirstToken && send_step_matches(
                            p.1,
                            AuthActSpec::FetchRequestToken,
                            cred_chars(af2.consumer),
                            signing.nonce@,
                            signing.timestamp,
                        ))
                    } else if s == 401 {
                        p.0.phase is Finished && p.1 matches SendStep::Failed(
                            Error::AuthRetryExhausted,
                        )
                    } else if s / 100 == 2 {
                        match content_kind_of(ct_view(response.content_type)) {
                            Some(k) => p.0.phase is Finished && (p.1 matches SendStep::Done(resp)
                                && resp.kind == k && resp.body@ == response.body@),
                            None => p.0.phase is Finished && (p.1 matches SendStep::Failed(
                                Error::UnsupportedContentType { content_type },
                            ) && Some(content_type@) == ct_view(response.content_type)),
                        }
                    } else {
                        match parsed_error_envelope(response.body@) {
                            Some(cm) => p.1 matches SendStep::Failed(
                                Error::ApiError { code, message },
                            ) && code as int == cm.0 && message@ == cm.1,
                            None => p.1 matches SendStep::Failed(Error::InvalidResponse),
                        }
                    }
                },
                }
            },
    {
        let SendFlow { method, path, params, body, retried, phase } = flow;
        let HttpResponse { status, content_type, body: resp_body } = response;
        match phase {
            SendPhase::Resolving(af) => {
                let ok = match status {
                    Some(s) => s / 100 == 2,
                    None => false,
                };
                let outcome = HttpOutcome { ok, body: resp_body };
                let (af2, step) = match self.access_token_step_http(af, today, signing, &outcome) {
                    Ok(p) => p,
                    Err(e) => {
                        return Err(e);
                    },
                };
                match step {
                    AuthStep::Done(at) => {
                        let req_body = clone_opt_bytes(&body);
                        let req = self.api_request(
                            &method,
                            path.as_str(),
                            &params,
                            req_body,
                            &af2.consumer,
                            &at,
                            signing,
                        );
                        Ok(
                            (
                                SendFlow {
                                    method,
                                    path,
                                    params,
                                    body,
                                    retried,
                                    phase: SendPhase::AwaitResponse,
                                },
                                SendStep::Fetch(req),
                            ),
                        )
                    },
                    AuthStep::Fetch(req) => {
                        Ok(
                            (
                                SendFlow {
                                    method,
                                    path,
                                    params,
                                    body,
                                    retried,
                                    phase: SendPhase::Resolving(af2),
                                },
                                SendStep::Fetch(req),
                            ),
                        )
                    },
                    AuthStep::Prompt(u) => {
                        Ok(
                            (
                                SendFlow {
                                    method,
                                    path,
                                    params,
                                    body,
                                    retried,
                                    phase: SendPhase::Resolving(af2),
                                },
                                SendStep::Prompt(u),
                            ),
                        )
                    },
                    AuthStep::Failed(e) => {
                        Ok(
                            (
                                SendFlow {
                                    method,
                                    path,
                                    params,
                                    body,
                                    retried,
                                    phase: SendPhase::Finished,
                                },
                                SendStep::Failed(e),
                            ),
                        )
                    },
                }
            },
            SendPhase::AwaitResponse => {
                let s = match status {
                    Some(s) => s,
                    None => {
                        return Ok(
                            (
                                SendFlow {
                                    method,
                                    path,
                                    params,
                                    body,
                                    retried,
                                    phase: SendPhase::Finished,
                                },
                                SendStep::Failed(Error::TransportError),
                            ),
                        );
                    },
                };
                if s == 401 && !retried {
                    match self.invalidate() {
                        Ok(_) => {},
                        Err(e) => {
                            return Err(e);
                        },
                    }
                    proof {
                        lemma_cleared_tokens_absent(old(self).stored(), old(self).ns());
                    }
                    let (af2, step) = match self.access_token_start(today, signing) {
                        Ok(p) => p,
                        Err(e) => {
                            return Err(e);
                        },
                    };
                    match step {
                        AuthStep::Fetch(req) => {
                            Ok(
                                (
                                    SendFlow {
                                        method,
                                        path,
                                        params,
                                        body,
                                        retried: true,
                                        phase: SendPhase::Resolving(af2),
                                    },
                                    SendStep::Fetch(req),
                                ),
                            )
                        },
                        _ => vstd::pervasive::unreached(),
                    }
                } else if s == 401 {
                    Ok(
                        (
                            SendFlow {
                                method,
                                path,
                                params,
                                body,
                                retried,
                                phase: SendPhase::Finished,
                            },
                            SendStep::Failed(Error::AuthRetryExhausted),
                        ),
                    )
                } else if s / 100 == 2 {
                    let kind = match &content_type {
                        None => Some(ContentKind::Json),
                        Some(ct) => {
                            if str_eq(ct.as_str(), "application/json") {
                                Some(ContentKind::Json)
                            } else if str_eq(ct.as_str(), "application/xml") {
                                Some(ContentKind::Xml)
                            } else {
                                None
                            }
                        },
                    };
                    match kind {
                        Some(k) => {
                            Ok(
                                (
                                    SendFlow {
                                        method,
                                        path,
                                        params,
                                        body,
                                        retried,
                                        phase: SendPhase::Finished,
                                    },
                                    SendStep::Done(ApiResponse { kind: k, body: resp_body }),
                                ),
                            )
                        },
                        None => {
                            let ct = match content_type {
                                Some(c) => c,
                                None => vstd::pervasive::unreached(),
                            };
                            Ok(
                                (
                                    SendFlow {
                                        method,
                                        path,
                                        params,
                                        body,
                                        retried,
                                        phase: SendPhase::Finished,
                                    },
                                    SendStep::Failed(
                                        Error::UnsupportedContentType { content_type: ct },
                                    ),
                                ),
                            )
                        },
                    }
                } else {
                    let failure = match parse_error_envelope(resp_body.as_slice()) {
                        Some(e) => Error::ApiError { code: e.code, message: e.message },
                        None => Error::InvalidResponse,
                    };
                    Ok(
                        (
                            SendFlow {
                                method,
                                path,
                                params,
                                body,
                                retried,
                                phase: SendPhase::Finished,
                            },
                            SendStep::Failed(failure),
                        ),
                    )
                }
            },
            SendPhase::Finished => vstd::pervasive::unreached(),
        }
    }

    /// Moves a call along after the user supplied the verifier code.
    pub fn send_step_pin(&self, flow: SendFlow, signing: &SignerParams, pin: &str) -> (r: (
        SendFlow,
        SendStep,
    ))
        requires
            flow.phase matches SendPhase::Resolving(af) && phase_view(af.phase) is Pin,
        ensures
            r.0.method == flow.method && r.0.path@ == flow.path@ && pairs_view(r.0.params@)
                == pairs_view(flow.params@) && opt_view(r.0.body) == opt_view(flow.body)
                && r.0.retried == flow.retried,
            flow.phase matches SendPhase::Resolving(af) ==> {
                let (ph, act) = auth_pin_next(phase_view(af.phase), pin@);
                &&& r.0.phase matches SendPhase::Resolving(af2) && phase_view(af2.phase) == ph
                    && cred_chars(af2.consumer) == cred_chars(af.consumer)
                &&& send_step_matches(
                    r.1,
                    act,
                    cred_chars(af.consumer),
                    signing.nonce@,
                    signing.timestamp,
                )
            },
    {
        let SendFlow { method, path, params, body, retried, phase } = flow;
        match phase {
            SendPhase::Resolving(af) => {
                let (af2, step) = self.access_token_step_pin(af, signing, pin);
                match step {
                    AuthStep::Fetch(req) => {
                        (
                            SendFlow {
                                method,
                                path,
                                params,
                                body,
                                retried,
                                phase: SendPhase::Resolving(af2),
                            },
                            SendStep::Fetch(req),
                        )
                    },
                    _ => vstd::pervasive::unreached(),
                }
            },
            _ => vstd::pervasive::unreached(),
        }
    }
}

/// A finished call accepts no further events: after the one retry was spent
/// and failed, no third attempt can be driven.
pub proof fn lemma_finished_call_is_terminal(f: SendFlow)
    requires
        f.phase is Finished,
    ensures
        !send_expects_http(f),
{
}

/// Whether moving the embedded acquisition by `next` is correctly
/// reflected in the resulting send flow and step: a finished acquisition
/// turns into the signed API request, anything else is forwarded.
pub open spec fn send_auth_advance(
    f2: SendFlow,
    step: SendStep,
    af: AuthFlow,
    next: (AuthPhaseSpec, AuthActSpec),
    mode: Mode,
    flow: SendFlow,
    nonce: Seq<char>,
    timestamp: u64,
) -> bool {
    match next.1 {
        AuthActSpec::Finish(at) => {
            &&& f2.phase is AwaitResponse
            &&& step matches SendStep::Fetch(req) && api_req_matches(
                req,
                mode,
                flow.method,
                flow.path@,
                pairs_view(flow.params@),
                cred_chars(af.consumer),
                at,
                nonce,
                timestamp,
                opt_view(flow.body),
            )
        },
        AuthActSpec::Fail => f2.phase is Finished && step matches SendStep::Failed(_),
        _ => {
            &&& f2.phase matches SendPhase::Resolving(af2) && phase_view(af2.phase) == next.0
                && cred_chars(af2.consumer) == cred_chars(af.consumer)
            &&& send_step_matches(step, next.1, cred_chars(af.consumer), nonce, timestamp)
        },
    }
}

} // verus!
