//! The two byte-level encodings used by the protocol.
//!
//! Request signing percent-encodes with the RFC 3986 unreserved set (upper
//! case hex, space as `%20`).  Query strings and the token-endpoint response
//! bodies use `x-www-form-urlencoded` instead: `*`, `-`, `.` and `_` stay
//! bare, space becomes `+`, everything else is `%XX`.

use vstd::prelude::*;

verus! {

/// The unreserved characters of RFC 3986: letters, digits, `-`, `.`, `_`, `~`.
pub open spec fn is_unreserved(b: u8) -> bool {
    (0x41 <= b <= 0x5A) || (0x61 <= b <= 0x7A) || (0x30 <= b <= 0x39) || b == 0x2D || b == 0x2E
        || b == 0x5F || b == 0x7E
}

/// The bytes kept bare by form-urlencoding: letters, digits, `*`, `-`, `.`, `_`.
pub open spec fn is_form_safe(b: u8) -> bool {
    (0x41 <= b <= 0x5A) || (0x61 <= b <= 0x7A) || (0x30 <= b <= 0x39) || b == 0x2A || b == 0x2D
        || b == 0x2E || b == 0x5F
}

/// The upper-case hex digit for a value below 16.
pub open spec fn hex_upper(n: u8) -> u8 {
    if n < 10 {
        (0x30 + n) as u8
    } else {
        (0x41 + (n - 10)) as u8
    }
}

/// How one byte is percent-encoded.
pub open spec fn pct_byte(b: u8) -> Seq<u8> {
    if is_unreserved(b) {
        seq![b]
    } else {
        seq![0x25u8, hex_upper(b / 16), hex_upper(b % 16)]
    }
}

/// RFC 3986 percent-encoding of a byte sequence.
pub open spec fn pct(s: Seq<u8>) -> Seq<u8>
    decreases s.len(),
{
    if s.len() == 0 {
        Seq::empty()
    } else {
        pct_byte(s.first()) + pct(s.drop_first())
    }
}

/// How one byte is form-urlencoded.
pub open spec fn form_byte(b: u8) -> Seq<u8> {
    if b == 0x20 {
        seq![0x2Bu8]
    } else if is_form_safe(b) {
        seq![b]
    } else {
        seq![0x25u8, hex_upper(b / 16), hex_upper(b % 16)]
    }
}

/// Form-urlencoding of a byte sequence.
pub open spec fn form_encoded(s: Seq<u8>) -> Seq<u8>
    decreases s.len(),
{
    if s.len() == 0 {
        Seq::empty()
    } else {
        form_byte(s.first()) + form_encoded(s.drop_first())
    }
}

pub proof fn lemma_pct_push(s: Seq<u8>, b: u8)
    ensures
        pct(s.push(b)) == pct(s) + pct_byte(b),
    decreases s.len(),
{
    if s.len() == 0 {
        assert(s.push(b).first() == b);
        assert(s.push(b).drop_first() =~= Seq::<u8>::empty());
        assert(pct(s.push(b)) == pct_byte(b) + pct(Seq::<u8>::empty()));
        assert(pct(s.push(b)) =~= pct(s) + pct_byte(b));
    } else {
        assert(s.push(b).first() == s.first());
        assert(s.push(b).drop_first() =~= s.drop_first().push(b));
        lemma_pct_push(s.drop_first(), b);
        assert(pct(s.push(b)) == pct_byte(s.first()) + (pct(s.drop_first()) + pct_byte(b)));
        assert(pct(s.push(b)) =~= pct(s) + pct_byte(b));
    }
}

pub proof fn lemma_form_push(s: Seq<u8>, b: u8)
    ensures
        form_encoded(s.push(b)) == form_encoded(s) + form_byte(b),
    decreases s.len(),
{
    if s.len() == 0 {
        assert(s.push(b).first() == b);
        assert(s.push(b).drop_first() =~= Seq::<u8>::empty());
        assert(form_encoded(s.push(b)) == form_byte(b) + form_encoded(Seq::<u8>::empty()));
        assert(form_encoded(s.push(b)) =~= form_encoded(s) + form_byte(b));
    } else {
        assert(s.push(b).first() == s.first());
        assert(s.push(b).drop_first() =~= s.drop_first().push(b));
        lemma_form_push(s.drop_first(), b);
        assert(form_encoded(s.push(b)) == form_byte(s.first()) + (form_encoded(s.drop_first())
            + form_byte(b)));
        assert(form_encoded(s.push(b)) =~= form_encoded(s) + form_byte(b));
    }
}

/// Everything either encoder emits is printable ASCII.
pub proof fn lemma_pct_ascii(s: Seq<u8>)
    ensures
        forall|i: int| 0 <= i < pct(s).len() ==> 0x20 <= #[trigger] pct(s)[i] < 127,
    decreases s.len(),
{
    if s.len() > 0 {
        lemma_pct_ascii(s.drop_first());
        assert forall|i: int| 0 <= i < pct(s).len() implies 0x20 <= #[trigger] pct(s)[i]
            < 127 by {
            let head = pct_byte(s.first());
            if i < head.len() {
                assert(pct(s)[i] == head[i]);
            } else {
                assert(pct(s)[i] == pct(s.drop_first())[i - head.len()]);
            }
        }
    }
}

pub proof fn lemma_form_ascii(s: Seq<u8>)
    ensures
        forall|i: int| 0 <= i < form_encoded(s).len() ==> 0x20 <= #[trigger] form_encoded(s)[i]
            < 127,
    decreases s.len(),
{
    if s.len() > 0 {
        lemma_form_ascii(s.drop_first());
        assert forall|i: int| 0 <= i < form_encoded(s).len() implies 0x20
            <= #[trigger] form_encoded(s)[i] < 127 by {
            let head = form_byte(s.first());
            if i < head.len() {
                assert(form_encoded(s)[i] == head[i]);
            } else {
                assert(form_encoded(s)[i] == form_encoded(s.drop_first())[i - head.len()]);
            }
        }
    }
}

fn hex_upper_exec(n: u8) -> (r: u8)
    requires
        n < 16,
    ensures
        r == hex_upper(n),
{
    if n < 10 {
        0x30 + n
    } else {
        0x41 + (n - 10)
    }
}

fn is_unreserved_exec(b: u8) -> (r: bool)
    ensures
        r == is_unreserved(b),
{
    (0x41 <= b && b <= 0x5A) || (0x61 <= b && b <= 0x7A) || (0x30 <= b && b <= 0x39) || b == 0x2D
        || b == 0x2E || b == 0x5F || b == 0x7E
}

fn is_form_safe_exec(b: u8) -> (r: bool)
    ensures
        r == is_form_safe(b),
{
    (0x41 <= b && b <= 0x5A) || (0x61 <= b && b <= 0x7A) || (0x30 <= b && b <= 0x39) || b == 0x2A
        || b == 0x2D || b == 0x2E || b == 0x5F
}

/// Appends the percent-encoding of `s` to `out`.
pub fn percent_encode_into(out: &mut Vec<u8>, s: &[u8])
    ensures
        final(out)@ == old(out)@ + pct(s@),
{
    let n = s.len();
    let mut i: usize = 0;
    proof {
        assert(s@.take(0) =~= Seq::<u8>::empty());
        assert(out@ + pct(s@.take(0)) =~= out@);
    }
    while i < n
        invariant
            n == s@.len(),
            0 <= i <= n,
            out@ == old(out)@ + pct(s@.take(i as int)),
        decreases n - i,
    {
        let b = s[i];
        if is_unreserved_exec(b) {
            out.push(b);
        } else {
            out.push(0x25);
            out.push(hex_upper_exec(b / 16));
            out.push(hex_upper_exec(b % 16));
        }
        proof {
            lemma_pct_push(s@.take(i as int), b);
            assert(s@.take(i as int).push(b) =~= s@.take(i + 1));
            assert(out@ =~= old(out)@ + pct(s@.take(i + 1)));
        }
        i += 1;
    }
    proof {
        assert(s@.take(n as int) =~= s@);
    }
}

/// The percent-encoding of `s` as a fresh vector.
pub fn percent_encode(s: &[u8]) -> (r: Vec<u8>)
    ensures
        r@ == pct(s@),
{
    let mut out: Vec<u8> = Vec::new();
    percent_encode_into(&mut out, s);
    proof {
        assert(out@ =~= pct(s@));
    }
    out
}

/// Appends the form-urlencoding of `s` to `out`.
pub fn form_encode_into(out: &mut Vec<u8>, s: &[u8])
    ensures
        final(out)@ == old(out)@ + form_encoded(s@),
{
    let n = s.len();
    let mut i: usize = 0;
    proof {
        assert(s@.take(0) =~= Seq::<u8>::empty());
        assert(out@ + form_encoded(s@.take(0)) =~= out@);
    }
    while i < n
        invariant
            n == s@.len(),
            0 <= i <= n,
            out@ == old(out)@ + form_encoded(s@.take(i as int)),
        decreases n - i,
    {
        let b = s[i];
        if b == 0x20 {
            out.push(0x2B);
        } else if is_form_safe_exec(b) {
            out.push(b);
        } else {
            out.push(0x25);
            out.push(hex_upper_exec(b / 16));
            out.push(hex_upper_exec(b % 16));
        }
        proof {
            lemma_form_push(s@.take(i as int), b);
            assert(s@.take(i as int).push(b) =~= s@.take(i + 1));
            assert(out@ =~= old(out)@ + form_encoded(s@.take(i + 1)));
        }
        i += 1;
    }
    proof {
        assert(s@.take(n as int) =~= s@);
    }
}

/// Whether a byte is an ASCII hex digit, either case.
pub open spec fn is_hex(b: u8) -> bool {
    (0x30 <= b <= 0x39) || (0x41 <= b <= 0x46) || (0x61 <= b <= 0x66)
}

/// The value of an ASCII hex digit.
pub open spec fn hex_val(b: u8) -> u8 {
    if 0x30 <= b <= 0x39 {
        (b - 0x30) as u8
    } else if 0x41 <= b <= 0x46 {
        (b - 0x41 + 10) as u8
    } else {
        (b - 0x61 + 10) as u8
    }
}

fn is_hex_exec(b: u8) -> (r: bool)
    ensures
        r == is_hex(b),
{
    (0x30 <= b && b <= 0x39) || (0x41 <= b && b <= 0x46) || (0x61 <= b && b <= 0x66)
}

fn hex_val_exec(b: u8) -> (r: u8)
    requires
        is_hex(b),
    ensures
        r == hex_val(b),
{
    if 0x30 <= b && b <= 0x39 {
        b - 0x30
    } else if 0x41 <= b && b <= 0x46 {
        b - 0x41 + 10
    } else {
        b - 0x61 + 10
    }
}

/// Form-urldecoding, as lenient as the web convention: `+` becomes a space,
/// a `%` followed by two hex digits becomes that byte, and anything else is
/// passed through unchanged.
pub open spec fn form_decoded(s: Seq<u8>) -> Seq<u8>
    decreases s.len(),
{
    if s.len() == 0 {
        Seq::empty()
    } else if s.first() == 0x2B {
        seq![0x20u8] + form_decoded(s.drop_first())
    } else if s.first() == 0x25 && s.len() >= 3 && is_hex(s[1]) && is_hex(s[2]) {
        seq![(hex_val(s[1]) * 16 + hex_val(s[2])) as u8] + form_decoded(s.skip(3))
    } else {
        seq![s.first()] + form_decoded(s.drop_first())
    }
}

/// Decodes a form-urlencoded byte sequence.
pub fn form_decode(s: &[u8]) -> (r: Vec<u8>)
    ensures
        r@ == form_decoded(s@),
{
    let n = s.len();
    let mut out: Vec<u8> = Vec::new();
    let mut i: usize = 0;
    proof {
        assert(s@.skip(0) =~= s@);
    }
    while i < n
        invariant
            n == s@.len(),
            0 <= i <= n,
            form_decoded(s@) == out@ + form_decoded(s@.skip(i as int)),
        decreases n - i,
    {
        let ghost rest = s@.skip(i as int);
        let b = s[i];
        proof {
            assert(rest.len() == n - i);
            assert(rest.first() == b);
        }
        if b == 0x2B {
            out.push(0x20);
            proof {
                assert(rest.drop_first() =~= s@.skip(i + 1));
                assert(out@ + form_decoded(s@.skip(i + 1)) =~= form_decoded(s@));
            }
            i += 1;
        } else if b == 0x25 && n - i > 2 && is_hex_exec(s[i + 1]) && is_hex_exec(s[i + 2]) {
            proof {
                assert(rest[1] == s@[i + 1]);
                assert(rest[2] == s@[i + 2]);
            }
            let v = hex_val_exec(s[i + 1]) * 16 + hex_val_exec(s[i + 2]);
            out.push(v);
            proof {
                assert(rest.skip(3) =~= s@.skip(i + 3));
                assert(out@ + form_decoded(s@.skip(i + 3)) =~= form_decoded(s@));
            }
            i += 3;
        } else {
            out.push(b);
            proof {
                assert(rest.drop_first() =~= s@.skip(i + 1));
                assert(out@ + form_decoded(s@.skip(i + 1)) =~= form_decoded(s@));
            }
            i += 1;
        }
    }
    proof {
        assert(s@.skip(n as int) =~= Seq::<u8>::empty());
        assert(out@ =~= form_decoded(s@));
    }
    out
}

} // verus!
