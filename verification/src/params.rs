//! Request parameters: byte-wise ordering, the duplicate-free canonical form
//! that the signature base string is built from, query-string assembly and
//! form-urlencoded parsing.
//!
//! A parameter set is canonicalized exactly as the dispatcher needs it for
//! signing: pairs sorted by key and then value in byte order, exact
//! duplicates dropped.

use vstd::prelude::*;

verus! {

use crate::percent::form_encoded;
use crate::percent::form_decoded;
use crate::percent::is_hex;
use crate::percent::hex_val;
use crate::percent::form_encode_into;
use crate::percent::form_decode;
use crate::util::bytes_eq;
use vstd::slice::slice_subrange;

/// A decoded parameter pair at the specification level.
pub type PairSpec = (Seq<u8>, Seq<u8>);

/// The views of a vector of byte-pair parameters.
pub open spec fn pairs_view(s: Seq<(Vec<u8>, Vec<u8>)>) -> Seq<PairSpec> {
    s.map_values(|p: (Vec<u8>, Vec<u8>)| (p.0@, p.1@))
}

/// Strict lexicographic (byte-wise) order on byte sequences.
pub open spec fn lex_lt(a: Seq<u8>, b: Seq<u8>) -> bool
    decreases a.len(),
{
    if b.len() == 0 {
        false
    } else if a.len() == 0 {
        true
    } else if a.first() < b.first() {
        true
    } else if a.first() > b.first() {
        false
    } else {
        lex_lt(a.drop_first(), b.drop_first())
    }
}

/// Strict order on parameter pairs: by key, then by value.
pub open spec fn pair_lt(x: PairSpec, y: PairSpec) -> bool {
    lex_lt(x.0, y.0) || (x.0 == y.0 && lex_lt(x.1, y.1))
}

/// If the first `i` bytes agree, the order is decided by the remainders.
proof fn lemma_lex_lt_skip(a: Seq<u8>, b: Seq<u8>, i: int)
    requires
        0 <= i <= a.len(),
        i <= b.len(),
        forall|j: int| 0 <= j < i ==> a[j] == b[j],
    ensures
        lex_lt(a, b) == lex_lt(a.skip(i), b.skip(i)),
    decreases i,
{
    if i == 0 {
        assert(a.skip(0) =~= a);
        assert(b.skip(0) =~= b);
    } else {
        assert(a.first() == b.first());
        lemma_lex_lt_skip(a.drop_first(), b.drop_first(), i - 1);
        assert(a.drop_first().skip(i - 1) =~= a.skip(i));
        assert(b.drop_first().skip(i - 1) =~= b.skip(i));
    }
}

/// At most one of `a < b`, `a == b`, `b < a` holds, and at least one does.
pub proof fn lemma_lex_lt_trichotomy(a: Seq<u8>, b: Seq<u8>)
    ensures
        lex_lt(a, b) || lex_lt(b, a) || a == b,
        lex_lt(a, b) ==> !lex_lt(b, a) && a != b,
        lex_lt(b, a) ==> !lex_lt(a, b) && a != b,
    decreases a.len(),
{
    if a.len() == 0 || b.len() == 0 {
        if a.len() == 0 && b.len() == 0 {
            assert(a =~= b);
        }
    } else if a.first() == b.first() {
        lemma_lex_lt_trichotomy(a.drop_first(), b.drop_first());
        if a.drop_first() == b.drop_first() {
            assert(a.len() == b.len());
            assert forall|i: int| 0 <= i < a.len() implies a[i] == b[i] by {
                if i > 0 {
                    assert(a.drop_first()[i - 1] == b.drop_first()[i - 1]);
                }
            }
            assert(a =~= b);
        }
        if a == b {
            assert(a.drop_first() =~= b.drop_first());
        }
    }
}

/// Compares two byte slices lexicographically.
pub fn lex_lt_exec(a: &[u8], b: &[u8]) -> (r: bool)
    ensures
        r == lex_lt(a@, b@),
{
    let alen = a.len();
    let blen = b.len();
    let mut i: usize = 0;
    while i < alen && i < blen && a[i] == b[i]
        invariant
            alen == a@.len(),
            blen == b@.len(),
            0 <= i <= alen,
            0 <= i <= blen,
            forall|j: int| 0 <= j < i ==> a@[j] == b@[j],
        decreases alen - i,
    {
        i += 1;
    }
    proof {
        lemma_lex_lt_skip(a@, b@, i as int);
    }
    if i < alen && i < blen {
        proof {
            assert(a@.skip(i as int).first() == a@[i as int]);
            assert(b@.skip(i as int).first() == b@[i as int]);
        }
        a[i] < b[i]
    } else {
        proof {
            if i == alen {
                assert(a@.skip(i as int).len() == 0);
            } else {
                assert(b@.skip(i as int).len() == 0);
            }
        }
        i == alen && i < blen
    }
}

/// Compares two parameter pairs for equality of their contents.
pub fn pair_eq_exec(x: &(Vec<u8>, Vec<u8>), y: &(Vec<u8>, Vec<u8>)) -> (r: bool)
    ensures
        r == ((x.0@, x.1@) == (y.0@, y.1@)),
{
    let r = bytes_eq(x.0.as_slice(), y.0.as_slice()) && bytes_eq(x.1.as_slice(), y.1.as_slice());
    r
}

/// Compares two parameter pairs in the canonical order.
pub fn pair_lt_exec(x: &(Vec<u8>, Vec<u8>), y: &(Vec<u8>, Vec<u8>)) -> (r: bool)
    ensures
        r == pair_lt((x.0@, x.1@), (y.0@, y.1@)),
{
    if lex_lt_exec(x.0.as_slice(), y.0.as_slice()) {
        true
    } else if bytes_eq(x.0.as_slice(), y.0.as_slice()) {
        lex_lt_exec(x.1.as_slice(), y.1.as_slice())
    } else {
        false
    }
}

/// Inserts a pair into an ordered, duplicate-free sequence, keeping it so.
pub open spec fn insert_uniq(p: PairSpec, s: Seq<PairSpec>) -> Seq<PairSpec>
    decreases s.len(),
{
    if s.len() == 0 {
        seq![p]
    } else if p == s.first() {
        s
    } else if pair_lt(p, s.first()) {
        seq![p] + s
    } else {
        seq![s.first()] + insert_uniq(p, s.drop_first())
    }
}

/// The canonical form of a parameter list: sorted by key and value in byte
/// order, with exact duplicates removed.
pub open spec fn canonical(ps: Seq<PairSpec>) -> Seq<PairSpec>
    decreases ps.len(),
{
    if ps.len() == 0 {
        Seq::empty()
    } else {
        insert_uniq(ps.first(), canonical(ps.drop_first()))
    }
}

/// Whether the pairs are strictly ascending (hence duplicate-free).
pub open spec fn strictly_sorted(s: Seq<PairSpec>) -> bool {
    forall|i: int, j: int| 0 <= i < j < s.len() ==> pair_lt(s[i], s[j])
}

proof fn lemma_insert_uniq_sorted(p: PairSpec, s: Seq<PairSpec>)
    requires
        strictly_sorted(s),
    ensures
        strictly_sorted(insert_uniq(p, s)),
        forall|q: PairSpec| #[trigger] insert_uniq(p, s).contains(q) <==> (q == p || s.contains(
            q,
        )),
    decreases s.len(),
{
    if s.len() > 0 {
        lemma_lex_lt_trichotomy(p.0, s.first().0);
        lemma_lex_lt_trichotomy(p.1, s.first().1);
    }
    if s.len() == 0 {
        assert forall|q: PairSpec| insert_uniq(p, s).contains(q) implies (q == p || s.contains(
            q,
        )) by {
            assert(insert_uniq(p, s) =~= seq![p]);
        }
        assert(seq![p].contains(p)) by {
            assert(seq![p][0] == p);
        }
    } else if p == s.first() {
        assert(s.contains(s.first())) by {
            assert(s[0] == s.first());
        }
    } else if pair_lt(p, s.first()) {
        let r = seq![p] + s;
        assert forall|i: int, j: int| 0 <= i < j < r.len() implies pair_lt(r[i], r[j]) by {
            if i == 0 {
                assert(r[0] == p);
                assert(r[j] == s[j - 1]);
                if j > 1 {
                    assert(pair_lt(s[0], s[j - 1]));
                    lemma_pair_lt_trans(p, s[0], s[j - 1]);
                }
            } else {
                assert(r[i] == s[i - 1] && r[j] == s[j - 1]);
            }
        }
        assert forall|q: PairSpec| r.contains(q) <==> (q == p || s.contains(q)) by {
            if r.contains(q) {
                let i = choose|i: int| 0 <= i < r.len() && r[i] == q;
                if i == 0 {
                } else {
                    assert(s[i - 1] == q);
                }
            }
            if q == p {
                assert(r[0] == q);
            }
            if s.contains(q) {
                let i = choose|i: int| 0 <= i < s.len() && s[i] == q;
                assert(r[i + 1] == q);
            }
        }
    } else {
        let rest = s.drop_first();
        assert(strictly_sorted(rest)) by {
            assert(forall|i: int, j: int|
                0 <= i < j < rest.len() ==> rest[i] == s[i + 1] && rest[j] == s[j + 1]);
        }
        lemma_insert_uniq_sorted(p, rest);
        let inner = insert_uniq(p, rest);
        let r = seq![s.first()] + inner;
        assert(pair_lt(s.first(), p)) by {
            assert(!pair_lt(p, s.first()) && p != s.first());
            if p.0 == s.first().0 {
                lemma_lex_lt_trichotomy(p.1, s.first().1);
            }
        }
        assert forall|i: int, j: int| 0 <= i < j < r.len() implies pair_lt(r[i], r[j]) by {
            if i == 0 {
                assert(inner.contains(r[j])) by {
                    assert(inner[j - 1] == r[j]);
                }
                if r[j] == p {
                } else {
                    assert(rest.contains(r[j]));
                    let m = choose|m: int| 0 <= m < rest.len() && rest[m] == r[j];
                    assert(s[m + 1] == r[j]);
                    assert(pair_lt(s[0], s[m + 1]));
                }
            } else {
                assert(r[i] == inner[i - 1] && r[j] == inner[j - 1]);
            }
        }
        assert forall|q: PairSpec| r.contains(q) <==> (q == p || s.contains(q)) by {
            if r.contains(q) {
                let i = choose|i: int| 0 <= i < r.len() && r[i] == q;
                if i == 0 {
                    assert(s[0] == q);
                } else {
                    assert(inner[i - 1] == q);
                    assert(inner.contains(q));
                    if q != p {
                        assert(rest.contains(q));
                        let m = choose|m: int| 0 <= m < rest.len() && rest[m] == q;
                        assert(s[m + 1] == q);
                    }
                }
            }
            if q == p {
                assert(inner.contains(q));
                let m = choose|m: int| 0 <= m < inner.len() && inner[m] == q;
                assert(r[m + 1] == q);
            }
            if s.contains(q) {
                let i = choose|i: int| 0 <= i < s.len() && s[i] == q;
                if i == 0 {
                    assert(r[0] == q);
                } else {
                    assert(rest[i - 1] == q);
                    assert(rest.contains(q));
                    assert(inner.contains(q));
                    let m = choose|m: int| 0 <= m < inner.len() && inner[m] == q;
                    assert(r[m + 1] == q);
                }
            }
        }
    }
}

/// The strict pair order is transitive.
pub proof fn lemma_pair_lt_trans(a: PairSpec, b: PairSpec, c: PairSpec)
    requires
        pair_lt(a, b),
        pair_lt(b, c),
    ensures
        pair_lt(a, c),
{
    lemma_lex_lt_trans(a.0, b.0, c.0);
    lemma_lex_lt_trans(a.1, b.1, c.1);
    lemma_lex_lt_trichotomy(a.0, b.0);
    lemma_lex_lt_trichotomy(b.0, c.0);
    lemma_lex_lt_trichotomy(a.0, c.0);
}

/// The strict byte order is transitive.
pub proof fn lemma_lex_lt_trans(a: Seq<u8>, b: Seq<u8>, c: Seq<u8>)
    ensures
        lex_lt(a, b) && lex_lt(b, c) ==> lex_lt(a, c),
    decreases a.len() + b.len() + c.len(),
{
    if a.len() > 0 && b.len() > 0 && c.len() > 0 {
        lemma_lex_lt_trans(a.drop_first(), b.drop_first(), c.drop_first());
    }
}

/// The canonical form is strictly sorted, and holds exactly the pairs of the
/// input.
pub proof fn lemma_canonical_sorted(ps: Seq<PairSpec>)
    ensures
        strictly_sorted(canonical(ps)),
        forall|q: PairSpec| #[trigger] canonical(ps).contains(q) <==> ps.contains(q),
    decreases ps.len(),
{
    if ps.len() == 0 {
    } else {
        let rest = ps.drop_first();
        lemma_canonical_sorted(rest);
        lemma_insert_uniq_sorted(ps.first(), canonical(rest));
        assert forall|q: PairSpec| #[trigger] canonical(ps).contains(q) <==> ps.contains(q) by {
            assert(canonical(ps) == insert_uniq(ps.first(), canonical(rest)));
            assert(insert_uniq(ps.first(), canonical(rest)).contains(q) <==> (q == ps.first()
                || canonical(rest).contains(q)));
            assert(canonical(rest).contains(q) <==> rest.contains(q));
            if q == ps.first() {
                assert(ps[0] == q);
            }
            if rest.contains(q) {
                let i = choose|i: int| 0 <= i < rest.len() && rest[i] == q;
                assert(ps[i + 1] == q);
            }
            if ps.contains(q) {
                let i = choose|i: int| 0 <= i < ps.len() && ps[i] == q;
                if i == 0 {
                    assert(q == ps.first());
                } else {
                    assert(rest[i - 1] == q);
                    assert(rest.contains(q));
                }
            }
        }
    }
}

fn insert_pair(p: (Vec<u8>, Vec<u8>), s: Vec<(Vec<u8>, Vec<u8>)>) -> (r: Vec<(Vec<u8>, Vec<u8>)>)
    ensures
        pairs_view(r@) == insert_uniq((p.0@, p.1@), pairs_view(s@)),
    decreases s@.len(),
{
    if s.len() == 0 {
        let mut v: Vec<(Vec<u8>, Vec<u8>)> = Vec::new();
        v.push(p);
        proof {
            assert(pairs_view(v@) =~= insert_uniq((p.0@, p.1@), pairs_view(s@)));
        }
        v
    } else if pair_eq_exec(&p, &s[0]) {
        proof {
            assert(pairs_view(s@).first() == (s@[0].0@, s@[0].1@));
        }
        s
    } else if pair_lt_exec(&p, &s[0]) {
        let mut v = s;
        let ghost before = pairs_view(v@);
        v.insert(0, p);
        proof {
            assert(pairs_view(v@) =~= seq![(p.0@, p.1@)] + before);
        }
        v
    } else {
        let mut v = s;
        let ghost s_view = pairs_view(v@);
        let first = v.remove(0);
        proof {
            assert(pairs_view(v@) =~= s_view.drop_first());
        }
        let rest = insert_pair(p, v);
        let mut r = rest;
        r.insert(0, first);
        proof {
            assert(pairs_view(r@) =~= seq![s_view.first()] + insert_uniq(
                (p.0@, p.1@),
                s_view.drop_first(),
            ));
        }
        r
    }
}

/// Sorts the pairs by key and then value in byte order and drops exact
/// duplicates, the canonical parameter set that is signed and serialized.
pub fn canonicalize(params: Vec<(Vec<u8>, Vec<u8>)>) -> (r: Vec<(Vec<u8>, Vec<u8>)>)
    ensures
        pairs_view(r@) == canonical(pairs_view(params@)),
    decreases params@.len(),
{
    if params.len() == 0 {
        let v: Vec<(Vec<u8>, Vec<u8>)> = Vec::new();
        proof {
            assert(pairs_view(v@) =~= canonical(pairs_view(params@)));
        }
        v
    } else {
        let mut ps = params;
        let ghost ps_view = pairs_view(ps@);
        let first = ps.remove(0);
        proof {
            assert(pairs_view(ps@) =~= ps_view.drop_first());
            assert((first.0@, first.1@) == ps_view.first());
        }
        let rest = canonicalize(ps);
        insert_pair(first, rest)
    }
}

/// One `key=value` unit of a query string, both sides form-urlencoded.
pub open spec fn query_unit(p: PairSpec) -> Seq<u8> {
    form_encoded(p.0) + seq![0x3Du8] + form_encoded(p.1)
}

/// The query string for a parameter list: units joined with `&`.
pub open spec fn query_string(ps: Seq<PairSpec>) -> Seq<u8>
    decreases ps.len(),
{
    if ps.len() == 0 {
        Seq::empty()
    } else if ps.len() == 1 {
        query_unit(ps.first())
    } else {
        query_unit(ps.first()) + seq![0x26u8] + query_string(ps.drop_first())
    }
}

proof fn lemma_query_string_push(ps: Seq<PairSpec>, p: PairSpec)
    ensures
        query_string(ps.push(p)) == if ps.len() == 0 {
            query_unit(p)
        } else {
            query_string(ps) + seq![0x26u8] + query_unit(p)
        },
    decreases ps.len(),
{
    if ps.len() == 0 {
        assert(ps.push(p).first() == p);
        assert(query_string(ps.push(p)) == query_unit(p));
    } else {
        assert(ps.push(p).first() == ps.first());
        assert(ps.push(p).drop_first() =~= ps.drop_first().push(p));
        lemma_query_string_push(ps.drop_first(), p);
        if ps.len() == 1 {
            assert(ps.drop_first().len() == 0);
            assert(query_string(ps.push(p)) == query_unit(ps.first()) + seq![0x26u8] + query_unit(
                p,
            ));
            assert(query_string(ps) == query_unit(ps.first()));
            assert(query_string(ps.push(p)) =~= query_string(ps) + seq![0x26u8] + query_unit(p));
        } else {
            assert(query_string(ps.push(p)) == query_unit(ps.first()) + seq![0x26u8] + (
            query_string(ps.drop_first()) + seq![0x26u8] + query_unit(p)));
            assert(query_string(ps.push(p)) =~= query_string(ps) + seq![0x26u8] + query_unit(p));
        }
    }
}

/// Serializes a parameter list into a form-urlencoded query string.
pub fn encode_query(params: &Vec<(Vec<u8>, Vec<u8>)>) -> (r: Vec<u8>)
    ensures
        r@ == query_string(pairs_view(params@)),
{
    let n = params.len();
    let mut out: Vec<u8> = Vec::new();
    let mut i: usize = 0;
    proof {
        assert(pairs_view(params@).take(0) =~= Seq::<PairSpec>::empty());
    }
    while i < n
        invariant
            n == params@.len(),
            0 <= i <= n,
            out@ == query_string(pairs_view(params@).take(i as int)),
        decreases n - i,
    {
        if i > 0 {
            out.push(0x26);
        }
        form_encode_into(&mut out, params[i].0.as_slice());
        out.push(0x3D);
        form_encode_into(&mut out, params[i].1.as_slice());
        proof {
            let ghost pv = pairs_view(params@);
            lemma_query_string_push(pv.take(i as int), pv[i as int]);
            assert(pv.take(i as int).push(pv[i as int]) =~= pv.take(i + 1));
            assert(out@ =~= query_string(pv.take(i + 1)));
        }
        i += 1;
    }
    proof {
        assert(pairs_view(params@).take(n as int) =~= pairs_view(params@));
    }
    out
}

/// The index of the first occurrence of `b` in `s`, or the length if absent.
pub open spec fn find_byte(s: Seq<u8>, b: u8) -> nat
    decreases s.len(),
{
    if s.len() == 0 {
        0
    } else if s.first() == b {
        0
    } else {
        (1 + find_byte(s.drop_first(), b)) as nat
    }
}

proof fn lemma_find_byte_props(s: Seq<u8>, b: u8)
    ensures
        0 <= find_byte(s, b) <= s.len(),
        find_byte(s, b) < s.len() ==> s[find_byte(s, b) as int] == b,
        forall|j: int| 0 <= j < find_byte(s, b) ==> s[j] != b,
    decreases s.len(),
{
    if s.len() > 0 && s.first() != b {
        lemma_find_byte_props(s.drop_first(), b);
        assert forall|j: int| 0 <= j < find_byte(s, b) implies s[j] != b by {
            if j > 0 {
                assert(s.drop_first()[j - 1] == s[j]);
            }
        }
    }
}

proof fn lemma_find_byte_unique(s: Seq<u8>, b: u8, k: int)
    requires
        0 <= k <= s.len(),
        k < s.len() ==> s[k] == b,
        forall|j: int| 0 <= j < k ==> s[j] != b,
    ensures
        find_byte(s, b) == k,
    decreases s.len(),
{
    if s.len() == 0 {
    } else if s.first() == b {
        assert(k == 0) by {
            if k > 0 {
                assert(s[0] != b);
            }
        }
    } else {
        assert(k > 0) by {
            if k == 0 {
                assert(s[0] == b);
            }
        }
        lemma_find_byte_unique(s.drop_first(), b, k - 1);
    }
}

/// Scans for the first occurrence of `b` at or after `from`.
fn scan_byte(s: &[u8], from: usize, b: u8) -> (r: usize)
    requires
        from <= s@.len(),
    ensures
        from <= r <= s@.len(),
        r - from == find_byte(s@.skip(from as int), b),
{
    let n = s.len();
    let mut i = from;
    while i < n && s[i] != b
        invariant
            n == s@.len(),
            from <= i <= n,
            forall|j: int| from <= j < i ==> s@[j] != b,
        decreases n - i,
    {
        i += 1;
    }
    proof {
        let rest = s@.skip(from as int);
        assert(forall|j: int| 0 <= j < rest.len() ==> rest[j] == s@[j + from]);
        lemma_find_byte_unique(rest, b, i - from);
    }
    i
}

/// A segment `key=value` (or bare `key`) decoded into a pair.
pub open spec fn split_pair(seg: Seq<u8>) -> PairSpec {
    let i = find_byte(seg, 0x3D);
    if i >= seg.len() {
        (form_decoded(seg), Seq::empty())
    } else {
        (form_decoded(seg.take(i as int)), form_decoded(seg.skip(i + 1 as int)))
    }
}

/// The parameter pairs of a form-urlencoded byte string: segments split on
/// `&`, empty segments dropped, each segment split at its first `=` and both
/// sides decoded.
pub open spec fn parse_pairs(s: Seq<u8>) -> Seq<PairSpec>
    decreases s.len(),
{
    if s.len() == 0 {
        Seq::empty()
    } else {
        let i = find_byte(s, 0x26);
        if i >= s.len() {
            seq![split_pair(s)]
        } else {
            let head: Seq<PairSpec> = if i == 0 {
                Seq::empty()
            } else {
                seq![split_pair(s.take(i as int))]
            };
            head + parse_pairs(s.skip(i + 1 as int))
        }
    }
}

fn split_segment(s: &[u8], start: usize, end: usize) -> (r: (Vec<u8>, Vec<u8>))
    requires
        start <= end <= s@.len(),
    ensures
        (r.0@, r.1@) == split_pair(s@.subrange(start as int, end as int)),
{
    let ghost seg = s@.subrange(start as int, end as int);
    let eq = scan_byte(s, start, 0x3D);
    let eq = if eq > end {
        end
    } else {
        eq
    };
    proof {
        let rest = s@.skip(start as int);
        lemma_find_byte_props(rest, 0x3D);
        assert(forall|j: int| 0 <= j < seg.len() ==> seg[j] == s@[start + j]);
        if eq < end {
            lemma_find_byte_unique(seg, 0x3D, eq - start);
        } else {
            lemma_find_byte_unique(seg, 0x3D, seg.len() as int);
        }
    }
    if eq == end {
        let key = form_decode(slice_subrange(s, start, end));
        let val: Vec<u8> = Vec::new();
        proof {
            assert(val@ =~= Seq::<u8>::empty());
        }
        (key, val)
    } else {
        let key = form_decode(slice_subrange(s, start, eq));
        let val = form_decode(slice_subrange(s, eq + 1, end));
        proof {
            assert(s@.subrange(start as int, eq as int) =~= seg.take(eq - start));
            assert(s@.subrange(eq + 1, end as int) =~= seg.skip(eq - start + 1));
        }
        (key, val)
    }
}

/// Parses a form-urlencoded byte string into its parameter pairs.
pub fn parse_query(s: &[u8]) -> (r: Vec<(Vec<u8>, Vec<u8>)>)
    ensures
        pairs_view(r@) == parse_pairs(s@),
{
    let n = s.len();
    let mut out: Vec<(Vec<u8>, Vec<u8>)> = Vec::new();
    let mut start: usize = 0;
    proof {
        assert(s@.skip(0) =~= s@);
        assert(pairs_view(out@) =~= Seq::<PairSpec>::empty());
    }
    while start < n
        invariant
            n == s@.len(),
            0 <= start <= n,
            parse_pairs(s@) == pairs_view(out@) + parse_pairs(s@.skip(start as int)),
        decreases n - start,
    {
        let ghost rest = s@.skip(start as int);
        let amp = scan_byte(s, start, 0x26);
        proof {
            assert(rest.len() > 0);
        }
        if amp == start {
            // empty segment: skip the delimiter
            proof {
                assert(find_byte(rest, 0x26) == 0);
                assert(rest.first() == 0x26) by {
                    if rest.first() != 0x26 {
                        lemma_find_byte_props(rest.drop_first(), 0x26);
                        assert(find_byte(rest, 0x26) == 1 + find_byte(rest.drop_first(), 0x26));
                    }
                }
                assert(rest.skip(1) =~= s@.skip(start + 1));
                assert(parse_pairs(rest) =~= parse_pairs(s@.skip(start + 1)));
            }
            start = amp + 1;
        } else {
            let pair = split_segment(s, start, amp);
            let ghost out_before = pairs_view(out@);
            out.push(pair);
            proof {
                let i = find_byte(rest, 0x26) as int;
                assert(i == amp - start);
                if amp == n {
                    assert(i == rest.len());
                    assert(rest.take(i) =~= rest);
                    assert(s@.subrange(start as int, amp as int) =~= rest);
                    assert(parse_pairs(rest) == seq![split_pair(rest)]);
                } else {
                    assert(s@.subrange(start as int, amp as int) =~= rest.take(i));
                    assert(rest.skip(i + 1) =~= s@.skip(amp + 1));
                    assert(parse_pairs(rest) == seq![split_pair(rest.take(i))] + parse_pairs(
                        s@.skip(amp + 1),
                    ));
                }
                assert(pairs_view(out@) =~= out_before.push((pair.0@, pair.1@)));
            }
            if amp == n {
                proof {
                    assert(s@.skip(n as int) =~= Seq::<u8>::empty());
                    assert(parse_pairs(s@) =~= pairs_view(out@) + parse_pairs(s@.skip(n as int)));
                }
                start = n;
            } else {
                proof {
                    assert(parse_pairs(s@) =~= pairs_view(out@) + parse_pairs(s@.skip(amp + 1)));
                }
                start = amp + 1;
            }
        }
    }
    proof {
        assert(s@.skip(n as int) =~= Seq::<u8>::empty());
        assert(pairs_view(out@) =~= parse_pairs(s@));
    }
    out
}

/// The value of the first pair with the given key, if any.
pub open spec fn find_pair(ps: Seq<PairSpec>, key: Seq<u8>) -> Option<Seq<u8>>
    decreases ps.len(),
{
    if ps.len() == 0 {
        None
    } else if ps.first().0 == key {
        Some(ps.first().1)
    } else {
        find_pair(ps.drop_first(), key)
    }
}

proof fn lemma_find_pair_skip(ps: Seq<PairSpec>, key: Seq<u8>, i: int)
    requires
        0 <= i <= ps.len(),
        forall|j: int| 0 <= j < i ==> (#[trigger] ps[j]).0 != key,
    ensures
        find_pair(ps, key) == find_pair(ps.skip(i), key),
    decreases i,
{
    if i == 0 {
        assert(ps.skip(0) =~= ps);
    } else {
        assert(ps.first().0 != key);
        assert(forall|j: int| 0 <= j < i - 1 ==> (#[trigger] ps.drop_first()[j]).0 != key) by {
            assert(forall|j: int|
                0 <= j < ps.drop_first().len() ==> #[trigger] ps.drop_first()[j] == ps[j + 1]);
        }
        lemma_find_pair_skip(ps.drop_first(), key, i - 1);
        assert(ps.drop_first().skip(i - 1) =~= ps.skip(i));
    }
}

/// Looks up the first pair with the given key.
pub fn lookup<'a>(pairs: &'a Vec<(Vec<u8>, Vec<u8>)>, key: &[u8]) -> (r: Option<&'a Vec<u8>>)
    ensures
        match r {
            Some(v) => find_pair(pairs_view(pairs@), key@) == Some(v@),
            None => find_pair(pairs_view(pairs@), key@) is None,
        },
{
    let n = pairs.len();
    let mut i: usize = 0;
    while i < n
        invariant
            n == pairs@.len(),
            0 <= i <= n,
            forall|j: int| 0 <= j < i ==> (#[trigger] pairs_view(pairs@)[j]).0 != key@,
        decreases n - i,
    {
        if bytes_eq(pairs[i].0.as_slice(), key) {
            proof {
                lemma_find_pair_skip(pairs_view(pairs@), key@, i as int);
                assert(pairs_view(pairs@).skip(i as int).first() == pairs_view(pairs@)[i as int]);
            }
            return Some(&pairs[i].1);
        }
        proof {
            assert((pairs_view(pairs@)[i as int]).0 != key@);
        }
        i += 1;
    }
    proof {
        lemma_find_pair_skip(pairs_view(pairs@), key@, n as int);
        assert(pairs_view(pairs@).skip(n as int).len() == 0);
    }
    None
}

} // verus!
