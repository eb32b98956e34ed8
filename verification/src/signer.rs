//! The OAuth1 request signer.
//!
//! Given the HTTP method, the request URL without its query, the decoded
//! query parameters in canonical order, the credentials and the per-request
//! nonce and timestamp, this module assembles the signature base string,
//! derives the HMAC-SHA1 signing key from the consumer secret and the
//! optional token secret, and produces the complete `Authorization` header.
//! Only the two cryptographic primitives, HMAC-SHA1 and base64, are taken
//! on trust; every byte around them is specified and verified.

use vstd::prelude::*;

verus! {

use crate::params::PairSpec;
use crate::params::pairs_view;
use crate::params::lex_lt;
use crate::params::lex_lt_exec;
use crate::params::query_string;
use crate::params::query_unit;
use crate::percent::pct;
use crate::percent::percent_encode;
use crate::percent::percent_encode_into;
use crate::percent::lemma_pct_ascii;
use crate::util::dec_digits;
use crate::util::u64_to_dec;
use crate::util::lemma_dec_digits_ascii;
use crate::util::ascii_to_string;
use crate::util::utf8;
use hmac::Mac;

/// Whether every byte is seven-bit ASCII.
pub open spec fn all_ascii(s: Seq<u8>) -> bool {
    forall|i: int| 0 <= i < s.len() ==> s[i] < 128
}

pub proof fn lemma_all_ascii_concat(a: Seq<u8>, b: Seq<u8>)
    requires
        all_ascii(a),
        all_ascii(b),
    ensures
        all_ascii(a + b),
{
    assert forall|i: int| 0 <= i < (a + b).len() implies (a + b)[i] < 128 by {
        if i < a.len() {
            assert((a + b)[i] == a[i]);
        } else {
            assert((a + b)[i] == b[i - a.len()]);
        }
    }
}

/// The characters of an ASCII byte sequence.
pub open spec fn ascii_chars_of(s: Seq<u8>) -> Seq<char> {
    Seq::new(s.len(), |i: int| s[i] as char)
}

/// The bytes of `"oauth_callback"`: the `oauth_callback` parameter name.
pub open spec fn k_callback() -> Seq<u8> {
    seq![0x6Fu8, 0x61u8, 0x75u8, 0x74u8, 0x68u8, 0x5Fu8, 0x63u8, 0x61u8, 0x6Cu8, 0x6Cu8, 0x62u8, 0x61u8, 0x63u8, 0x6Bu8]
}

pub proof fn lemma_k_callback_ascii()
    ensures
        all_ascii(k_callback()),
{
    assert forall|i: int| 0 <= i < k_callback().len() implies k_callback()[i] < 128 by {
    }
}

/// Appends the bytes of `"oauth_callback"`.
pub fn append_k_callback(out: &mut Vec<u8>)
    ensures
        final(out)@ == old(out)@ + k_callback(),
{
    out.push(0x6F);
    out.push(0x61);
    out.push(0x75);
    out.push(0x74);
    out.push(0x68);
    out.push(0x5F);
    out.push(0x63);
    out.push(0x61);
    out.push(0x6C);
    out.push(0x6C);
    out.push(0x62);
    out.push(0x61);
    out.push(0x63);
    out.push(0x6B);
    proof {
        assert(out@ =~= old(out)@ + k_callback());
    }
}

/// The bytes of `"oauth_consumer_key"`: the `oauth_consumer_key` parameter name.
pub open spec fn k_consumer_key() -> Seq<u8> {
    seq![0x6Fu8, 0x61u8, 0x75u8, 0x74u8, 0x68u8, 0x5Fu8, 0x63u8, 0x6Fu8, 0x6Eu8, 0x73u8, 0x75u8, 0x6Du8, 0x65u8, 0x72u8, 0x5Fu8, 0x6Bu8, 0x65u8, 0x79u8]
}

pub proof fn lemma_k_consumer_key_ascii()
    ensures
        all_ascii(k_consumer_key()),
{
    assert forall|i: int| 0 <= i < k_consumer_key().len() implies k_consumer_key()[i] < 128 by {
    }
}

/// Appends the bytes of `"oauth_consumer_key"`.
pub fn append_k_consumer_key(out: &mut Vec<u8>)
    ensures
        final(out)@ == old(out)@ + k_consumer_key(),
{
    out.push(0x6F);
    out.push(0x61);
    out.push(0x75);
    out.push(0x74);
    out.push(0x68);
    out.push(0x5F);
    out.push(0x63);
    out.push(0x6F);
    out.push(0x6E);
    out.push(0x73);
    out.push(0x75);
    out.push(0x6D);
    out.push(0x65);
    out.push(0x72);
    out.push(0x5F);
    out.push(0x6B);
    out.push(0x65);
    out.push(0x79);
    proof {
        assert(out@ =~= old(out)@ + k_consumer_key());
    }
}

/// The bytes of `"oauth_nonce"`: the `oauth_nonce` parameter name.
pub open spec fn k_nonce() -> Seq<u8> {
    seq![0x6Fu8, 0x61u8, 0x75u8, 0x74u8, 0x68u8, 0x5Fu8, 0x6Eu8, 0x6Fu8, 0x6Eu8, 0x63u8, 0x65u8]
}

pub proof fn lemma_k_nonce_ascii()
    ensures
        all_ascii(k_nonce()),
{
    assert forall|i: int| 0 <= i < k_nonce().len() implies k_nonce()[i] < 128 by {
    }
}

/// Appends the bytes of `"oauth_nonce"`.
pub fn append_k_nonce(out: &mut Vec<u8>)
    ensures
        final(out)@ == old(out)@ + k_nonce(),
{
    out.push(0x6F);
    out.push(0x61);
    out.push(0x75);
    out.push(0x74);
    out.push(0x68);
    out.push(0x5F);
    out.push(0x6E);
    out.push(0x6F);
    out.push(0x6E);
    out.push(0x63);
    out.push(0x65);
    proof {
        assert(out@ =~= old(out)@ + k_nonce());
    }
}

/// The bytes of `"oauth_signature_method"`: the `oauth_signature_method` parameter name.
pub open spec fn k_signature_method() -> Seq<u8> {
    seq![0x6Fu8, 0x61u8, 0x75u8, 0x74u8, 0x68u8, 0x5Fu8, 0x73u8, 0x69u8, 0x67u8, 0x6Eu8, 0x61u8, 0x74u8, 0x75u8, 0x72u8, 0x65u8, 0x5Fu8, 0x6Du8, 0x65u8, 0x74u8, 0x68u8, 0x6Fu8, 0x64u8]
}

pub proof fn lemma_k_signature_method_ascii()
    ensures
        all_ascii(k_signature_method()),
{
    assert forall|i: int| 0 <= i < k_signature_method().len() implies k_signature_method()[i] < 128 by {
    }
}

/// Appends the bytes of `"oauth_signature_method"`.
pub fn append_k_signature_method(out: &mut Vec<u8>)
    ensures
        final(out)@ == old(out)@ + k_signature_method(),
{
    out.push(0x6F);
    out.push(0x61);
    out.push(0x75);
    out.push(0x74);
    out.push(0x68);
    out.push(0x5F);
    out.push(0x73);
    out.push(0x69);
    out.push(0x67);
    out.push(0x6E);
    out.push(0x61);
    out.push(0x74);
    out.push(0x75);
    out.push(0x72);
    out.push(0x65);
    out.push(0x5F);
    out.push(0x6D);
    out.push(0x65);
    out.push(0x74);
    out.push(0x68);
    out.push(0x6F);
    out.push(0x64);
    proof {
        assert(out@ =~= old(out)@ + k_signature_method());
    }
}

/// The bytes of `"oauth_timestamp"`: the `oauth_timestamp` parameter name.
pub open spec fn k_timestamp() -> Seq<u8> {
    seq![0x6Fu8, 0x61u8, 0x75u8, 0x74u8, 0x68u8, 0x5Fu8, 0x74u8, 0x69u8, 0x6Du8, 0x65u8, 0x73u8, 0x74u8, 0x61u8, 0x6Du8, 0x70u8]
}

pub proof fn lemma_k_timestamp_ascii()
    ensures
        all_ascii(k_timestamp()),
{
    assert forall|i: int| 0 <= i < k_timestamp().len() implies k_timestamp()[i] < 128 by {
    }
}

/// Appends the bytes of `"oauth_timestamp"`.
pub fn append_k_timestamp(out: &mut Vec<u8>)
    ensures
        final(out)@ == old(out)@ + k_timestamp(),
{
    out.push(0x6F);
    out.push(0x61);
    out.push(0x75);
    out.push(0x74);
    out.push(0x68);
    out.push(0x5F);
    out.push(0x74);
    out.push(0x69);
    out.push(0x6D);
    out.push(0x65);
    out.push(0x73);
    out.push(0x74);
    out.push(0x61);
    out.push(0x6D);
    out.push(0x70);
    proof {
        assert(out@ =~= old(out)@ + k_timestamp());
    }
}

/// The bytes of `"oauth_token"`: the `oauth_token` parameter name.
pub open spec fn k_token() -> Seq<u8> {
    seq![0x6Fu8, 0x61u8, 0x75u8, 0x74u8, 0x68u8, 0x5Fu8, 0x74u8, 0x6Fu8, 0x6Bu8, 0x65u8, 0x6Eu8]
}

pub proof fn lemma_k_token_ascii()
    ensures
        all_ascii(k_token()),
{
    assert forall|i: int| 0 <= i < k_token().len() implies k_token()[i] < 128 by {
    }
}

/// Appends the bytes of `"oauth_token"`.
pub fn append_k_token(out: &mut Vec<u8>)
    ensures
        final(out)@ == old(out)@ + k_token(),
{
    out.push(0x6F);
    out.push(0x61);
    out.push(0x75);
    out.push(0x74);
    out.push(0x68);
    out.push(0x5F);
    out.push(0x74);
    out.push(0x6F);
    out.push(0x6B);
    out.push(0x65);
    out.push(0x6E);
    proof {
        assert(out@ =~= old(out)@ + k_token());
    }
}

/// The bytes of `"oauth_verifier"`: the `oauth_verifier` parameter name.
pub open spec fn k_verifier() -> Seq<u8> {
    seq![0x6Fu8, 0x61u8, 0x75u8, 0x74u8, 0x68u8, 0x5Fu8, 0x76u8, 0x65u8, 0x72u8, 0x69u8, 0x66u8, 0x69u8, 0x65u8, 0x72u8]
}

pub proof fn lemma_k_verifier_ascii()
    ensures
        all_ascii(k_verifier()),
{
    assert forall|i: int| 0 <= i < k_verifier().len() implies k_verifier()[i] < 128 by {
    }
}

/// Appends the bytes of `"oauth_verifier"`.
pub fn append_k_verifier(out: &mut Vec<u8>)
    ensures
        final(out)@ == old(out)@ + k_verifier(),
{
    out.push(0x6F);
    out.push(0x61);
    out.push(0x75);
    out.push(0x74);
    out.push(0x68);
    out.push(0x5F);
    out.push(0x76);
    out.push(0x65);
    out.push(0x72);
    out.push(0x69);
    out.push(0x66);
    out.push(0x69);
    out.push(0x65);
    out.push(0x72);
    proof {
        assert(out@ =~= old(out)@ + k_verifier());
    }
}

/// The bytes of `"oauth_signature"`: the `oauth_signature` parameter name.
pub open spec fn k_signature() -> Seq<u8> {
    seq![0x6Fu8, 0x61u8, 0x75u8, 0x74u8, 0x68u8, 0x5Fu8, 0x73u8, 0x69u8, 0x67u8, 0x6Eu8, 0x61u8, 0x74u8, 0x75u8, 0x72u8, 0x65u8]
}

pub proof fn lemma_k_signature_ascii()
    ensures
        all_ascii(k_signature()),
{
    assert forall|i: int| 0 <= i < k_signature().len() implies k_signature()[i] < 128 by {
    }
}

/// Appends the bytes of `"oauth_signature"`.
pub fn append_k_signature(out: &mut Vec<u8>)
    ensures
        final(out)@ == old(out)@ + k_signature(),
{
    out.push(0x6F);
    out.push(0x61);
    out.push(0x75);
    out.push(0x74);
    out.push(0x68);
    out.push(0x5F);
    out.push(0x73);
    out.push(0x69);
    out.push(0x67);
    out.push(0x6E);
    out.push(0x61);
    out.push(0x74);
    out.push(0x75);
    out.push(0x72);
    out.push(0x65);
    proof {
        assert(out@ =~= old(out)@ + k_signature());
    }
}

/// The bytes of `"oauth_token_secret"`: the `oauth_token_secret` response field name.
pub open spec fn k_token_secret() -> Seq<u8> {
    seq![0x6Fu8, 0x61u8, 0x75u8, 0x74u8, 0x68u8, 0x5Fu8, 0x74u8, 0x6Fu8, 0x6Bu8, 0x65u8, 0x6Eu8, 0x5Fu8, 0x73u8, 0x65u8, 0x63u8, 0x72u8, 0x65u8, 0x74u8]
}

/// Appends the bytes of `"oauth_token_secret"`.
pub fn append_k_token_secret(out: &mut Vec<u8>)
    ensures
        final(out)@ == old(out)@ + k_token_secret(),
{
    out.push(0x6F);
    out.push(0x61);
    out.push(0x75);
    out.push(0x74);
    out.push(0x68);
    out.push(0x5F);
    out.push(0x74);
    out.push(0x6F);
    out.push(0x6B);
    out.push(0x65);
    out.push(0x6E);
    out.push(0x5F);
    out.push(0x73);
    out.push(0x65);
    out.push(0x63);
    out.push(0x72);
    out.push(0x65);
    out.push(0x74);
    proof {
        assert(out@ =~= old(out)@ + k_token_secret());
    }
}

/// The bytes of `"HMAC-SHA1"`: the signature method label.
pub open spec fn sig_method_name() -> Seq<u8> {
    seq![0x48u8, 0x4Du8, 0x41u8, 0x43u8, 0x2Du8, 0x53u8, 0x48u8, 0x41u8, 0x31u8]
}

pub proof fn lemma_sig_method_name_ascii()
    ensures
        all_ascii(sig_method_name()),
{
    assert forall|i: int| 0 <= i < sig_method_name().len() implies sig_method_name()[i] < 128 by {
    }
}

/// Appends the bytes of `"HMAC-SHA1"`.
pub fn append_sig_method_name(out: &mut Vec<u8>)
    ensures
        final(out)@ == old(out)@ + sig_method_name(),
{
    out.push(0x48);
    out.push(0x4D);
    out.push(0x41);
    out.push(0x43);
    out.push(0x2D);
    out.push(0x53);
    out.push(0x48);
    out.push(0x41);
    out.push(0x31);
    proof {
        assert(out@ =~= old(out)@ + sig_method_name());
    }
}

/// The bytes of `"OAuth "`: the authorization header scheme prefix.
pub open spec fn header_prefix() -> Seq<u8> {
    seq![0x4Fu8, 0x41u8, 0x75u8, 0x74u8, 0x68u8, 0x20u8]
}

pub proof fn lemma_header_prefix_ascii()
    ensures
        all_ascii(header_prefix()),
{
    assert forall|i: int| 0 <= i < header_prefix().len() implies header_prefix()[i] < 128 by {
    }
}

/// Appends the bytes of `"OAuth "`.
pub fn append_header_prefix(out: &mut Vec<u8>)
    ensures
        final(out)@ == old(out)@ + header_prefix(),
{
    out.push(0x4F);
    out.push(0x41);
    out.push(0x75);
    out.push(0x74);
    out.push(0x68);
    out.push(0x20);
    proof {
        assert(out@ =~= old(out)@ + header_prefix());
    }
}

/// The bytes of `"oauth_"`: the key prefix that places protocol parameters in sort order.
pub open spec fn oauth_marker() -> Seq<u8> {
    seq![0x6Fu8, 0x61u8, 0x75u8, 0x74u8, 0x68u8, 0x5Fu8]
}

/// Appends the bytes of `"oauth_"`.
pub fn append_oauth_marker(out: &mut Vec<u8>)
    ensures
        final(out)@ == old(out)@ + oauth_marker(),
{
    out.push(0x6F);
    out.push(0x61);
    out.push(0x75);
    out.push(0x74);
    out.push(0x68);
    out.push(0x5F);
    proof {
        assert(out@ =~= old(out)@ + oauth_marker());
    }
}

/// The bytes of `"oob"`: the out-of-band callback marker.
pub open spec fn oob_value() -> Seq<u8> {
    seq![0x6Fu8, 0x6Fu8, 0x62u8]
}

/// Appends the bytes of `"oob"`.
pub fn append_oob_value(out: &mut Vec<u8>)
    ensures
        final(out)@ == old(out)@ + oob_value(),
{
    out.push(0x6F);
    out.push(0x6F);
    out.push(0x62);
    proof {
        assert(out@ =~= old(out)@ + oob_value());
    }
}

/// A query string over ASCII-encoded units is ASCII.
pub proof fn lemma_query_string_ascii(ps: Seq<PairSpec>)
    ensures
        all_ascii(crate::params::query_string(ps)),
    decreases ps.len(),
{
    if ps.len() > 0 {
        crate::percent::lemma_form_ascii(ps.first().0);
        crate::percent::lemma_form_ascii(ps.first().1);
        lemma_all_ascii_concat(
            crate::percent::form_encoded(ps.first().0),
            seq![0x3Du8],
        );
        lemma_all_ascii_concat(
            crate::percent::form_encoded(ps.first().0) + seq![0x3Du8],
            crate::percent::form_encoded(ps.first().1),
        );
        if ps.len() > 1 {
            lemma_query_string_ascii(ps.drop_first());
            lemma_all_ascii_concat(query_unit(ps.first()), seq![0x26u8]);
            lemma_all_ascii_concat(
                query_unit(ps.first()) + seq![0x26u8],
                query_string(ps.drop_first()),
            );
        }
    }
}

/// The HTTP methods the dispatcher issues.
#[derive(Debug, Clone, Copy, PartialEq, Eq, Structural)]
pub enum Method {
    Get,
    Post,
    Put,
    Delete,
}

impl Method {
    /// The method name as request-line bytes.
    pub open spec fn bytes(self) -> Seq<u8> {
        match self {
            Method::Get => seq![0x47u8, 0x45u8, 0x54u8],
            Method::Post => seq![0x50u8, 0x4Fu8, 0x53u8, 0x54u8],
            Method::Put => seq![0x50u8, 0x55u8, 0x54u8],
            Method::Delete => seq![0x44u8, 0x45u8, 0x4Cu8, 0x45u8, 0x54u8, 0x45u8],
        }
    }

    /// Appends the method name bytes.
    pub fn append_bytes(&self, out: &mut Vec<u8>)
        ensures
            final(out)@ == old(out)@ + self.bytes(),
    {
        match self {
            Method::Get => {
                out.push(0x47);
                out.push(0x45);
                out.push(0x54);
            },
            Method::Post => {
                out.push(0x50);
                out.push(0x4F);
                out.push(0x53);
                out.push(0x54);
            },
            Method::Put => {
                out.push(0x50);
                out.push(0x55);
                out.push(0x54);
            },
            Method::Delete => {
                out.push(0x44);
                out.push(0x45);
                out.push(0x4C);
                out.push(0x45);
                out.push(0x54);
                out.push(0x45);
            },
        }
        proof {
            assert(out@ =~= old(out)@ + self.bytes());
        }
    }

    /// The method name as a string, for building the actual request.
    pub fn as_str(&self) -> (r: &'static str)
        ensures
            utf8(r@) == self.bytes(),
            r@ == ascii_chars_of(self.bytes()),
    {
        let r = match self {
            Method::Get => "GET",
            Method::Post => "POST",
            Method::Put => "PUT",
            Method::Delete => "DELETE",
        };
        proof {
            reveal_strlit("GET");
            reveal_strlit("POST");
            reveal_strlit("PUT");
            reveal_strlit("DELETE");
            vstd::string::is_ascii_spec_bytes(r);
            assert(vstd::utf8::is_ascii_chars(r@));
            assert(utf8(r@) =~= self.bytes());
            assert(r@ =~= ascii_chars_of(self.bytes()));
        }
        r
    }
}

/// The view of an optional byte vector.
pub open spec fn opt_view(o: Option<Vec<u8>>) -> Option<Seq<u8>> {
    match o {
        Some(v) => Some(v@),
        None => None,
    }
}

/// The view of an optional credential pair (identifier, secret).
pub open spec fn cred_view(o: Option<(Vec<u8>, Vec<u8>)>) -> Option<(Seq<u8>, Seq<u8>)> {
    match o {
        Some(c) => Some((c.0@, c.1@)),
        None => None,
    }
}

/// An optional protocol parameter: absent, or the key with the
/// percent-encoded value.
pub open spec fn opt_param(key: Seq<u8>, v: Option<Seq<u8>>) -> Seq<PairSpec> {
    match v {
        Some(x) => seq![(key, pct(x))],
        None => Seq::empty(),
    }
}

/// The `oauth_*` protocol parameters of one request, in the order they
/// appear in the authorization header.  Values are stored in their header
/// encoding: percent-encoded, except the signature method label and the
/// timestamp digits, which need no encoding.
pub open spec fn oauth_params(
    callback: Option<Seq<u8>>,
    consumer_key: Seq<u8>,
    nonce: Seq<u8>,
    timestamp: u64,
    token_key: Option<Seq<u8>>,
    verifier: Option<Seq<u8>>,
) -> Seq<PairSpec> {
    opt_param(k_callback(), callback) + seq![
        (k_consumer_key(), pct(consumer_key)),
        (k_nonce(), pct(nonce)),
        (k_signature_method(), sig_method_name()),
        (k_timestamp(), dec_digits(timestamp as nat)),
    ] + opt_param(k_token(), token_key) + opt_param(k_verifier(), verifier)
}

/// The query parameters whose key does not sort after `oauth_`.
pub open spec fn before_marker(ps: Seq<PairSpec>) -> Seq<PairSpec>
    decreases ps.len(),
{
    if ps.len() == 0 {
        Seq::empty()
    } else {
        let head: Seq<PairSpec> = if lex_lt(oauth_marker(), ps.first().0) {
            Seq::empty()
        } else {
            seq![ps.first()]
        };
        head + before_marker(ps.drop_first())
    }
}

/// The query parameters whose key sorts after `oauth_`.
pub open spec fn after_marker(ps: Seq<PairSpec>) -> Seq<PairSpec>
    decreases ps.len(),
{
    if ps.len() == 0 {
        Seq::empty()
    } else {
        let head: Seq<PairSpec> = if lex_lt(oauth_marker(), ps.first().0) {
            seq![ps.first()]
        } else {
            Seq::empty()
        };
        head + after_marker(ps.drop_first())
    }
}

proof fn lemma_before_marker_push(ps: Seq<PairSpec>, p: PairSpec)
    ensures
        before_marker(ps.push(p)) == before_marker(ps) + (if lex_lt(oauth_marker(), p.0) {
            Seq::<PairSpec>::empty()
        } else {
            seq![p]
        }),
    decreases ps.len(),
{
    if ps.len() == 0 {
        assert(ps.push(p).first() == p);
        assert(ps.push(p).drop_first() =~= Seq::<PairSpec>::empty());
        assert(before_marker(Seq::<PairSpec>::empty()) == Seq::<PairSpec>::empty());
        assert(before_marker(ps.push(p)) =~= before_marker(ps) + (if lex_lt(
            oauth_marker(),
            p.0,
        ) {
            Seq::<PairSpec>::empty()
        } else {
            seq![p]
        }));
    } else {
        assert(ps.push(p).first() == ps.first());
        assert(ps.push(p).drop_first() =~= ps.drop_first().push(p));
        lemma_before_marker_push(ps.drop_first(), p);
        assert(before_marker(ps.push(p)) =~= before_marker(ps) + (if lex_lt(
            oauth_marker(),
            p.0,
        ) {
            Seq::<PairSpec>::empty()
        } else {
            seq![p]
        }));
    }
}

proof fn lemma_after_marker_push(ps: Seq<PairSpec>, p: PairSpec)
    ensures
        after_marker(ps.push(p)) == after_marker(ps) + (if lex_lt(oauth_marker(), p.0) {
            seq![p]
        } else {
            Seq::<PairSpec>::empty()
        }),
    decreases ps.len(),
{
    if ps.len() == 0 {
        assert(ps.push(p).first() == p);
        assert(ps.push(p).drop_first() =~= Seq::<PairSpec>::empty());
        assert(after_marker(Seq::<PairSpec>::empty()) == Seq::<PairSpec>::empty());
        assert(after_marker(ps.push(p)) =~= after_marker(ps) + (if lex_lt(oauth_marker(), p.0) {
            seq![p]
        } else {
            Seq::<PairSpec>::empty()
        }));
    } else {
        assert(ps.push(p).first() == ps.first());
        assert(ps.push(p).drop_first() =~= ps.drop_first().push(p));
        lemma_after_marker_push(ps.drop_first(), p);
        assert(after_marker(ps.push(p)) =~= after_marker(ps) + (if lex_lt(oauth_marker(), p.0) {
            seq![p]
        } else {
            Seq::<PairSpec>::empty()
        }));
    }
}

/// The query parameters with their values brought into header encoding
/// (percent-encoded once), as they enter the signature.
pub open spec fn enc_pairs(ps: Seq<PairSpec>) -> Seq<PairSpec> {
    ps.map_values(|p: PairSpec| (p.0, pct(p.1)))
}

/// All parameters that take part in the signature, in signing order: query
/// parameters up to `oauth_`, then the protocol parameters, then the rest.
/// Query values carry their single encoding here; the signature entry
/// encodes every value once more.
pub open spec fn signed_params(query: Seq<PairSpec>, protocol: Seq<PairSpec>) -> Seq<PairSpec> {
    before_marker(enc_pairs(query)) + protocol + after_marker(enc_pairs(query))
}

/// One parameter as it enters the signature base string: the raw key, a
/// percent-encoded `=`, and the header encoding of the value encoded once
/// more.
pub open spec fn sig_entry(p: PairSpec) -> Seq<u8> {
    p.0 + seq![0x25u8, 0x33u8, 0x44u8] + pct(p.1)
}

/// The parameter section of the signature base string: entries joined by a
/// percent-encoded `&`.  `first` says whether no entry has been emitted yet.
pub open spec fn sig_entries(ps: Seq<PairSpec>, first: bool) -> Seq<u8>
    decreases ps.len(),
{
    if ps.len() == 0 {
        Seq::empty()
    } else {
        (if first {
            sig_entry(ps.first())
        } else {
            seq![0x25u8, 0x32u8, 0x36u8] + sig_entry(ps.first())
        }) + sig_entries(ps.drop_first(), false)
    }
}

proof fn lemma_sig_entries_push(ps: Seq<PairSpec>, p: PairSpec, first: bool)
    ensures
        sig_entries(ps.push(p), first) == sig_entries(ps, first) + (if first && ps.len() == 0 {
            sig_entry(p)
        } else {
            seq![0x25u8, 0x32u8, 0x36u8] + sig_entry(p)
        }),
    decreases ps.len(),
{
    if ps.len() == 0 {
        assert(ps.push(p).first() == p);
        assert(ps.push(p).drop_first() =~= Seq::<PairSpec>::empty());
        assert(sig_entries(Seq::<PairSpec>::empty(), false) == Seq::<u8>::empty());
        assert(sig_entries(ps.push(p), first) =~= sig_entries(ps, first) + (if first {
            sig_entry(p)
        } else {
            seq![0x25u8, 0x32u8, 0x36u8] + sig_entry(p)
        }));
    } else {
        assert(ps.push(p).first() == ps.first());
        assert(ps.push(p).drop_first() =~= ps.drop_first().push(p));
        lemma_sig_entries_push(ps.drop_first(), p, false);
        assert(sig_entries(ps.push(p), first) =~= sig_entries(ps, first) + (seq![
            0x25u8,
            0x32u8,
            0x36u8,
        ] + sig_entry(p)));
    }
}

/// Joining the signature entries of two parameter lists in sequence.
pub proof fn lemma_sig_entries_concat(a: Seq<PairSpec>, b: Seq<PairSpec>, first: bool)
    ensures
        sig_entries(a + b, first) == sig_entries(a, first) + sig_entries(
            b,
            first && a.len() == 0,
        ),
    decreases a.len(),
{
    if a.len() == 0 {
        assert(a + b =~= b);
    } else {
        assert((a + b).first() == a.first());
        assert((a + b).drop_first() =~= a.drop_first() + b);
        lemma_sig_entries_concat(a.drop_first(), b, false);
        assert(sig_entries(a + b, first) =~= sig_entries(a, first) + sig_entries(b, false));
    }
}

/// The signature base string: method, percent-encoded URL and parameter
/// section, joined by `&`.
pub open spec fn base_string(method: Seq<u8>, url: Seq<u8>, ps: Seq<PairSpec>) -> Seq<u8> {
    method + seq![0x26u8] + pct(url) + seq![0x26u8] + sig_entries(ps, true)
}

/// The HMAC key: percent-encoded consumer secret and token secret joined by
/// `&`, the token part empty when no token is in play.
pub open spec fn signing_key(consumer_secret: Seq<u8>, token_secret: Option<Seq<u8>>) -> Seq<u8> {
    pct(consumer_secret) + seq![0x26u8] + (match token_secret {
        Some(t) => pct(t),
        None => Seq::empty(),
    })
}

/// What HMAC-SHA1 returns: a function of key and message alone.
pub uninterp spec fn hmac_sha1_of(key: Seq<u8>, msg: Seq<u8>) -> Seq<u8>;

/// What standard base64 encoding returns: a function of the input alone.
pub uninterp spec fn base64_of(data: Seq<u8>) -> Seq<u8>;

/// Relies on `Hmac::<Sha1>` of the hmac crate: the tag depends on key and
/// message alone, and SHA-1 tags are 20 bytes long.
#[verifier::external_body]
fn hmac_sha1(key: &[u8], msg: &[u8]) -> (r: Vec<u8>)
    ensures
        r@ == hmac_sha1_of(key@, msg@),
        r@.len() == 20,
{
    let mut mac = hmac::Hmac::<sha1::Sha1>::new_from_slice(key).unwrap();
    mac.update(msg);
    mac.finalize().into_bytes().to_vec()
}

/// Relies on `base64::encode`: the standard alphabet with `=` padding, four
/// ASCII characters for every started group of three input bytes.
#[verifier::external_body]
fn base64_encode(data: &[u8]) -> (r: Vec<u8>)
    ensures
        r@ == base64_of(data@),
        r@.len() == 4 * ((data@.len() + 2) / 3),
        all_ascii(r@),
{
    base64::encode(data).into_bytes()
}

/// One parameter as it appears in the authorization header:
/// `key="value",`.
pub open spec fn header_entry(p: PairSpec) -> Seq<u8> {
    p.0 + seq![0x3Du8, 0x22u8] + p.1 + seq![0x22u8, 0x2Cu8]
}

/// The protocol parameters rendered for the header, in order.
pub open spec fn header_entries(ps: Seq<PairSpec>) -> Seq<u8>
    decreases ps.len(),
{
    if ps.len() == 0 {
        Seq::empty()
    } else {
        header_entry(ps.first()) + header_entries(ps.drop_first())
    }
}

proof fn lemma_header_entries_push(ps: Seq<PairSpec>, p: PairSpec)
    ensures
        header_entries(ps.push(p)) == header_entries(ps) + header_entry(p),
    decreases ps.len(),
{
    if ps.len() == 0 {
        assert(ps.push(p).first() == p);
        assert(ps.push(p).drop_first() =~= Seq::<PairSpec>::empty());
        assert(header_entries(Seq::<PairSpec>::empty()) == Seq::<u8>::empty());
        assert(header_entries(ps.push(p)) =~= header_entries(ps) + header_entry(p));
    } else {
        assert(ps.push(p).first() == ps.first());
        assert(ps.push(p).drop_first() =~= ps.drop_first().push(p));
        lemma_header_entries_push(ps.drop_first(), p);
        assert(header_entries(ps.push(p)) =~= header_entries(ps) + header_entry(p));
    }
}

/// The complete `Authorization` header value for one signed request.
pub open spec fn authorization_bytes(
    method: Seq<u8>,
    url: Seq<u8>,
    query: Seq<PairSpec>,
    consumer_key: Seq<u8>,
    consumer_secret: Seq<u8>,
    callback: Option<Seq<u8>>,
    nonce: Seq<u8>,
    timestamp: u64,
    token: Option<(Seq<u8>, Seq<u8>)>,
    verifier: Option<Seq<u8>>,
) -> Seq<u8> {
    let token_key = match token {
        Some(t) => Some(t.0),
        None => None,
    };
    let token_secret = match token {
        Some(t) => Some(t.1),
        None => None,
    };
    let protocol = oauth_params(callback, consumer_key, nonce, timestamp, token_key, verifier);
    let signature = base64_of(
        hmac_sha1_of(
            signing_key(consumer_secret, token_secret),
            base_string(method, url, signed_params(query, protocol)),
        ),
    );
    header_prefix() + header_entries(protocol) + k_signature() + seq![0x3Du8, 0x22u8] + pct(
        signature,
    ) + seq![0x22u8]
}

/// Every parameter holds only ASCII bytes.
pub open spec fn params_ascii(ps: Seq<PairSpec>) -> bool {
    forall|i: int|
        0 <= i < ps.len() ==> all_ascii(#[trigger] ps[i].0) && all_ascii(ps[i].1)
}


proof fn lemma_params_ascii_concat(a: Seq<PairSpec>, b: Seq<PairSpec>)
    requires
        params_ascii(a),
        params_ascii(b),
    ensures
        params_ascii(a + b),
{
    assert forall|i: int|
        0 <= i < (a + b).len() implies all_ascii(#[trigger] (a + b)[i].0) && all_ascii(
        (a + b)[i].1,
    ) by {
        if i < a.len() {
            assert((a + b)[i] == a[i]);
            assert(all_ascii(a[i].0) && all_ascii(a[i].1));
        } else {
            assert((a + b)[i] == b[i - a.len()]);
            assert(all_ascii(b[i - a.len()].0) && all_ascii(b[i - a.len()].1));
        }
    }
}

fn append_sig_entry(out: &mut Vec<u8>, p: &(Vec<u8>, Vec<u8>))
    ensures
        final(out)@ == old(out)@ + sig_entry((p.0@, p.1@)),
{
    out.extend_from_slice(p.0.as_slice());
    out.push(0x25);
    out.push(0x33);
    out.push(0x44);
    percent_encode_into(out, p.1.as_slice());
    proof {
        assert(out@ =~= old(out)@ + sig_entry((p.0@, p.1@)));
    }
}

fn append_sig_entries(out: &mut Vec<u8>, ps: &Vec<(Vec<u8>, Vec<u8>)>, first: bool) -> (r: bool)
    ensures
        final(out)@ == old(out)@ + sig_entries(pairs_view(ps@), first),
        r == (first && ps@.len() == 0),
{
    let n = ps.len();
    let mut i: usize = 0;
    proof {
        assert(pairs_view(ps@).take(0) =~= Seq::<PairSpec>::empty());
        assert(out@ =~= old(out)@ + sig_entries(pairs_view(ps@).take(0), first));
    }
    while i < n
        invariant
            n == ps@.len(),
            0 <= i <= n,
            out@ == old(out)@ + sig_entries(pairs_view(ps@).take(i as int), first),
        decreases n - i,
    {
        if !(first && i == 0) {
            out.push(0x25);
            out.push(0x32);
            out.push(0x36);
        }
        append_sig_entry(out, &ps[i]);
        proof {
            let pv = pairs_view(ps@);
            lemma_sig_entries_push(pv.take(i as int), pv[i as int], first);
            assert(pv.take(i as int).push(pv[i as int]) =~= pv.take(i + 1));
            assert(out@ =~= old(out)@ + sig_entries(pv.take(i + 1), first));
        }
        i += 1;
    }
    proof {
        assert(pairs_view(ps@).take(n as int) =~= pairs_view(ps@));
    }
    first && n == 0
}

fn append_header_entries(out: &mut Vec<u8>, ps: &Vec<(Vec<u8>, Vec<u8>)>)
    ensures
        final(out)@ == old(out)@ + header_entries(pairs_view(ps@)),
{
    let n = ps.len();
    let mut i: usize = 0;
    proof {
        assert(pairs_view(ps@).take(0) =~= Seq::<PairSpec>::empty());
        assert(out@ =~= old(out)@ + header_entries(pairs_view(ps@).take(0)));
    }
    while i < n
        invariant
            n == ps@.len(),
            0 <= i <= n,
            out@ == old(out)@ + header_entries(pairs_view(ps@).take(i as int)),
        decreases n - i,
    {
        out.extend_from_slice(ps[i].0.as_slice());
        out.push(0x3D);
        out.push(0x22);
        out.extend_from_slice(ps[i].1.as_slice());
        out.push(0x22);
        out.push(0x2C);
        proof {
            let pv = pairs_view(ps@);
            lemma_header_entries_push(pv.take(i as int), pv[i as int]);
            assert(pv.take(i as int).push(pv[i as int]) =~= pv.take(i + 1));
            assert(out@ =~= old(out)@ + header_entries(pv.take(i + 1)));
        }
        i += 1;
    }
    proof {
        assert(pairs_view(ps@).take(n as int) =~= pairs_view(ps@));
    }
}

/// The header entries of ASCII parameters are ASCII.
proof fn lemma_header_entries_ascii(ps: Seq<PairSpec>)
    requires
        params_ascii(ps),
    ensures
        all_ascii(header_entries(ps)),
    decreases ps.len(),
{
    if ps.len() > 0 {
        assert(all_ascii(ps[0].0) && all_ascii(ps[0].1));
        assert(params_ascii(ps.drop_first())) by {
            assert(forall|i: int|
                0 <= i < ps.drop_first().len() ==> ps.drop_first()[i] == ps[i + 1]);
        }
        lemma_header_entries_ascii(ps.drop_first());
        lemma_all_ascii_concat(ps[0].0, seq![0x3Du8, 0x22u8]);
        lemma_all_ascii_concat(ps[0].0 + seq![0x3Du8, 0x22u8], ps[0].1);
        lemma_all_ascii_concat(ps[0].0 + seq![0x3Du8, 0x22u8] + ps[0].1, seq![0x22u8, 0x2Cu8]);
        lemma_all_ascii_concat(header_entry(ps.first()), header_entries(ps.drop_first()));
    }
}

/// Builds the `Authorization` header value for one request.
///
/// `query` must already be in canonical order (sorted, duplicate-free) as
/// produced by `canonicalize`; the header is a pure function of the
/// arguments, so signing the same request with the same nonce and timestamp
/// always yields the same header.
#[verifier::rlimit(100)]
pub fn build_authorization(
    method: &Method,
    url: &str,
    query: &Vec<(Vec<u8>, Vec<u8>)>,
    consumer_key: &[u8],
    consumer_secret: &[u8],
    callback: &Option<Vec<u8>>,
    nonce: &[u8],
    timestamp: u64,
    token: &Option<(Vec<u8>, Vec<u8>)>,
    verifier: &Option<Vec<u8>>,
) -> (r: String)
    ensures
        r@ == ascii_chars_of(
            authorization_bytes(
                method.bytes(),
                utf8(url@),
                pairs_view(query@),
                consumer_key@,
                consumer_secret@,
                opt_view(*callback),
                nonce@,
                timestamp,
                cred_view(*token),
                opt_view(*verifier),
            ),
        ),
{
    // the protocol parameters, with values already header-encoded
    let mut protocol: Vec<(Vec<u8>, Vec<u8>)> = Vec::new();
    match callback {
        Some(cb) => {
            let mut key: Vec<u8> = Vec::new();
            append_k_callback(&mut key);
            protocol.push((key, percent_encode(cb.as_slice())));
        },
        None => {},
    }
    let mut key: Vec<u8> = Vec::new();
    append_k_consumer_key(&mut key);
    protocol.push((key, percent_encode(consumer_key)));
    let mut key: Vec<u8> = Vec::new();
    append_k_nonce(&mut key);
    protocol.push((key, percent_encode(nonce)));
    let mut key: Vec<u8> = Vec::new();
    append_k_signature_method(&mut key);
    let mut method_name: Vec<u8> = Vec::new();
    append_sig_method_name(&mut method_name);
    protocol.push((key, method_name));
    let mut key: Vec<u8> = Vec::new();
    append_k_timestamp(&mut key);
    protocol.push((key, u64_to_dec(timestamp)));
    match token {
        Some(t) => {
            let mut key: Vec<u8> = Vec::new();
            append_k_token(&mut key);
            protocol.push((key, percent_encode(t.0.as_slice())));
        },
        None => {},
    }
    match verifier {
        Some(v) => {
            let mut key: Vec<u8> = Vec::new();
            append_k_verifier(&mut key);
            protocol.push((key, percent_encode(v.as_slice())));
        },
        None => {},
    }
    let ghost token_key: Option<Seq<u8>> = match cred_view(*token) {
        Some(t) => Some(t.0),
        None => None,
    };
    let ghost token_secret: Option<Seq<u8>> = match cred_view(*token) {
        Some(t) => Some(t.1),
        None => None,
    };
    let ghost protocol_spec = oauth_params(
        opt_view(*callback),
        consumer_key@,
        nonce@,
        timestamp,
        token_key,
        opt_view(*verifier),
    );
    proof {
        assert(pairs_view(protocol@) =~= protocol_spec);
    }
    // split the query around the protocol block
    let mut marker: Vec<u8> = Vec::new();
    append_oauth_marker(&mut marker);
    let mut low: Vec<(Vec<u8>, Vec<u8>)> = Vec::new();
    let mut high: Vec<(Vec<u8>, Vec<u8>)> = Vec::new();
    let qn = query.len();
    let mut i: usize = 0;
    proof {
        let qv = pairs_view(query@);
        assert(qv.take(0) =~= Seq::<PairSpec>::empty());
        assert(pairs_view(low@) =~= before_marker(qv.take(0)));
        assert(pairs_view(high@) =~= after_marker(qv.take(0)));
    }
    while i < qn
        invariant
            qn == query@.len(),
            0 <= i <= qn,
            marker@ == oauth_marker(),
            pairs_view(low@) == before_marker(enc_pairs(pairs_view(query@).take(i as int))),
            pairs_view(high@) == after_marker(enc_pairs(pairs_view(query@).take(i as int))),
        decreases qn - i,
    {
        let pair = (
            crate::util::bytes_of(query[i].0.as_slice()),
            percent_encode(query[i].1.as_slice()),
        );
        let ghost low_before = pairs_view(low@);
        let ghost high_before = pairs_view(high@);
        if lex_lt_exec(marker.as_slice(), pair.0.as_slice()) {
            high.push(pair);
        } else {
            low.push(pair);
        }
        proof {
            let qv = pairs_view(query@);
            let ev = enc_pairs(qv.take(i as int));
            let entry = (qv[i as int].0, pct(qv[i as int].1));
            lemma_before_marker_push(ev, entry);
            lemma_after_marker_push(ev, entry);
            assert(ev.push(entry) =~= enc_pairs(qv.take(i + 1)));
            assert(pairs_view(low@) =~= before_marker(enc_pairs(qv.take(i + 1))));
            assert(pairs_view(high@) =~= after_marker(enc_pairs(qv.take(i + 1))));
        }
        i += 1;
    }
    proof {
        assert(pairs_view(query@).take(qn as int) =~= pairs_view(query@));
    }
    // the signature base string
    let mut base: Vec<u8> = Vec::new();
    method.append_bytes(&mut base);
    base.push(0x26);
    percent_encode_into(&mut base, url.as_bytes());
    base.push(0x26);
    let ghost base_prefix = method.bytes() + seq![0x26u8] + pct(utf8(url@)) + seq![0x26u8];
    proof {
        assert(base@ =~= base_prefix);
    }
    let f = append_sig_entries(&mut base, &low, true);
    let f = append_sig_entries(&mut base, &protocol, f);
    let _ = append_sig_entries(&mut base, &high, f);
    let ghost all_params = signed_params(pairs_view(query@), protocol_spec);
    proof {
        let qv = enc_pairs(pairs_view(query@));
        lemma_sig_entries_concat(before_marker(qv) + protocol_spec, after_marker(qv), true);
        lemma_sig_entries_concat(before_marker(qv), protocol_spec, true);
        assert(before_marker(qv) + protocol_spec + after_marker(qv) =~= all_params);
        assert(protocol_spec.len() > 0);
        assert(sig_entries(all_params, true) =~= sig_entries(before_marker(qv), true)
            + sig_entries(protocol_spec, before_marker(qv).len() == 0) + sig_entries(
            after_marker(qv),
            false,
        ));
        assert(base@ =~= base_prefix + sig_entries(all_params, true));
        assert(base@ =~= base_string(method.bytes(), utf8(url@), all_params));
    }
    // the signing key and signature
    let mut sig_key: Vec<u8> = Vec::new();
    percent_encode_into(&mut sig_key, consumer_secret);
    sig_key.push(0x26);
    match token {
        Some(t) => {
            percent_encode_into(&mut sig_key, t.1.as_slice());
        },
        None => {},
    }
    proof {
        assert(sig_key@ =~= signing_key(consumer_secret@, token_secret));
    }
    let tag = hmac_sha1(sig_key.as_slice(), base.as_slice());
    let signature = base64_encode(tag.as_slice());
    // the header
    let mut header: Vec<u8> = Vec::new();
    append_header_prefix(&mut header);
    append_header_entries(&mut header, &protocol);
    append_k_signature(&mut header);
    header.push(0x3D);
    header.push(0x22);
    percent_encode_into(&mut header, signature.as_slice());
    header.push(0x22);
    let ghost header_spec = authorization_bytes(
        method.bytes(),
        utf8(url@),
        pairs_view(query@),
        consumer_key@,
        consumer_secret@,
        opt_view(*callback),
        nonce@,
        timestamp,
        cred_view(*token),
        opt_view(*verifier),
    );
    proof {
        assert(header@ =~= header_spec);
        // every byte of the header is ASCII, so it converts to a string
        lemma_header_prefix_ascii();
        lemma_k_signature_ascii();
        assert(params_ascii(protocol_spec)) by {
            lemma_k_callback_ascii();
            lemma_k_consumer_key_ascii();
            lemma_k_nonce_ascii();
            lemma_k_signature_method_ascii();
            lemma_k_timestamp_ascii();
            lemma_k_token_ascii();
            lemma_k_verifier_ascii();
            lemma_sig_method_name_ascii();
            lemma_dec_digits_ascii(timestamp as nat);
            let cbp = opt_param(k_callback(), opt_view(*callback));
            assert(params_ascii(cbp)) by {
                match opt_view(*callback) {
                    Some(cb) => {
                        lemma_pct_ascii(cb);
                        assert forall|i: int|
                            0 <= i < cbp.len() implies all_ascii(#[trigger] cbp[i].0)
                            && all_ascii(cbp[i].1) by {
                            assert(cbp[i] == (k_callback(), pct(cb)));
                        }
                    },
                    None => {},
                }
            }
            let mid = seq![
                (k_consumer_key(), pct(consumer_key@)),
                (k_nonce(), pct(nonce@)),
                (k_signature_method(), sig_method_name()),
                (k_timestamp(), dec_digits(timestamp as nat)),
            ];
            assert(params_ascii(mid)) by {
                lemma_pct_ascii(consumer_key@);
                lemma_pct_ascii(nonce@);
                assert(all_ascii(dec_digits(timestamp as nat)));
                assert forall|i: int|
                    0 <= i < mid.len() implies all_ascii(#[trigger] mid[i].0) && all_ascii(
                    mid[i].1,
                ) by {
                    if i == 0 {
                        assert(mid[i] == (k_consumer_key(), pct(consumer_key@)));
                    } else if i == 1 {
                        assert(mid[i] == (k_nonce(), pct(nonce@)));
                    } else if i == 2 {
                        assert(mid[i] == (k_signature_method(), sig_method_name()));
                    } else {
                        assert(mid[i] == (k_timestamp(), dec_digits(timestamp as nat)));
                    }
                }
            }
            let tkp = opt_param(k_token(), token_key);
            assert(params_ascii(tkp)) by {
                match token_key {
                    Some(t) => {
                        lemma_pct_ascii(t);
                        assert forall|i: int|
                            0 <= i < tkp.len() implies all_ascii(#[trigger] tkp[i].0)
                            && all_ascii(tkp[i].1) by {
                            assert(tkp[i] == (k_token(), pct(t)));
                        }
                    },
                    None => {},
                }
            }
            let vfp = opt_param(k_verifier(), opt_view(*verifier));
            assert(params_ascii(vfp)) by {
                match opt_view(*verifier) {
                    Some(v) => {
                        lemma_pct_ascii(v);
                        assert forall|i: int|
                            0 <= i < vfp.len() implies all_ascii(#[trigger] vfp[i].0)
                            && all_ascii(vfp[i].1) by {
                            assert(vfp[i] == (k_verifier(), pct(v)));
                        }
                    },
                    None => {},
                }
            }
            lemma_params_ascii_concat(cbp, mid);
            lemma_params_ascii_concat(cbp + mid, tkp);
            lemma_params_ascii_concat(cbp + mid + tkp, vfp);
            assert(protocol_spec == cbp + mid + tkp + vfp);
        }
        lemma_header_entries_ascii(protocol_spec);
        lemma_pct_ascii(signature@);
        assert(all_ascii(header@)) by {
            lemma_all_ascii_concat(header_prefix(), header_entries(protocol_spec));
            lemma_all_ascii_concat(
                header_prefix() + header_entries(protocol_spec),
                k_signature(),
            );
            lemma_all_ascii_concat(
                header_prefix() + header_entries(protocol_spec) + k_signature(),
                seq![0x3Du8, 0x22u8],
            );
            lemma_all_ascii_concat(
                header_prefix() + header_entries(protocol_spec) + k_signature() + seq![
                    0x3Du8,
                    0x22u8,
                ],
                pct(signature@),
            );
            lemma_all_ascii_concat(
                header_prefix() + header_entries(protocol_spec) + k_signature() + seq![
                    0x3Du8,
                    0x22u8,
                ] + pct(signature@),
                seq![0x22u8],
            );
            assert(header@ =~= header_prefix() + header_entries(protocol_spec) + k_signature()
                + seq![0x3Du8, 0x22u8] + pct(signature@) + seq![0x22u8]);
        }
    }
    let r = ascii_to_string(header);
    proof {
        assert(r@ =~= ascii_chars_of(header_spec));
    }
    r
}

} // verus!
