//! The signing scheme of the remote API: the parameters are sorted by
//! byte-wise ascending key, each key is concatenated with its value, the
//! shared secret is appended, and the MD5 digest of the whole is rendered
//! as lower-case hexadecimal.

use vstd::prelude::*;
use vstd::relations::{sorted_by, total_ordering};
use vstd::seq_lib::lemma_sorted_unique;
use vstd::string::StringSliceAdditionalSpecFns;
use vstd::utf8::encode_utf8;
use vstd::utf8::encode_utf8_decode_utf8;
use crate::params::{pair_views, PairVal, ParameterSet};
use crate::text::{bytes_to_hex, hex_rep};

verus! {

/// Byte-wise (lexicographic) order on byte strings: a proper prefix comes
/// first, and otherwise the first differing byte decides.
pub open spec fn lex_le(a: Seq<u8>, b: Seq<u8>) -> bool
    decreases a.len(),
{
    if a.len() == 0 {
        true
    } else if b.len() == 0 {
        false
    } else if a[0] < b[0] {
        true
    } else if a[0] > b[0] {
        false
    } else {
        lex_le(a.drop_first(), b.drop_first())
    }
}

pub proof fn lemma_lex_le_refl(a: Seq<u8>)
    ensures
        lex_le(a, a),
    decreases a.len(),
{
    if a.len() > 0 {
        lemma_lex_le_refl(a.drop_first());
    }
}

pub proof fn lemma_lex_le_antisym(a: Seq<u8>, b: Seq<u8>)
    requires
        lex_le(a, b),
        lex_le(b, a),
    ensures
        a == b,
    decreases a.len(),
{
    if a.len() == 0 {
        assert(a =~= b);
    } else {
        lemma_lex_le_antisym(a.drop_first(), b.drop_first());
        assert(a =~= seq![a[0]] + a.drop_first());
        assert(b =~= seq![b[0]] + b.drop_first());
    }
}

pub proof fn lemma_lex_le_trans(a: Seq<u8>, b: Seq<u8>, c: Seq<u8>)
    requires
        lex_le(a, b),
        lex_le(b, c),
    ensures
        lex_le(a, c),
    decreases a.len(),
{
    if a.len() > 0 && b.len() > 0 && c.len() > 0 {
        if a[0] == b[0] && b[0] == c[0] {
            lemma_lex_le_trans(a.drop_first(), b.drop_first(), c.drop_first());
        }
    }
}

pub proof fn lemma_lex_le_connected(a: Seq<u8>, b: Seq<u8>)
    ensures
        lex_le(a, b) || lex_le(b, a),
    decreases a.len(),
{
    if a.len() > 0 && b.len() > 0 && a[0] == b[0] {
        lemma_lex_le_connected(a.drop_first(), b.drop_first());
    }
}

/// Two character strings have equal UTF-8 encodings only when equal.
pub proof fn lemma_encode_utf8_injective(a: Seq<char>, b: Seq<char>)
    requires
        encode_utf8(a) == encode_utf8(b),
    ensures
        a == b,
{
    encode_utf8_decode_utf8(a);
    encode_utf8_decode_utf8(b);
}

/// The order the signer sorts by: parameters are compared by the UTF-8
/// bytes of their keys, and parameters of one key by those of their values.
pub open spec fn pair_le(p: PairVal, q: PairVal) -> bool {
    if encode_utf8(p.0) == encode_utf8(q.0) {
        lex_le(encode_utf8(p.1), encode_utf8(q.1))
    } else {
        lex_le(encode_utf8(p.0), encode_utf8(q.0))
    }
}

/// `pair_le` as a first-class relation, for `sort_by`.
pub open spec fn pair_order() -> spec_fn(PairVal, PairVal) -> bool {
    |p: PairVal, q: PairVal| pair_le(p, q)
}

/// The signer's order is a total ordering on parameters.
pub proof fn lemma_pair_order_total()
    ensures
        total_ordering(pair_order()),
{
    let leq = pair_order();
    assert forall|p: PairVal| #[trigger] leq(p, p) by {
        lemma_lex_le_refl(encode_utf8(p.1));
    }
    assert forall|p: PairVal, q: PairVal| #[trigger] leq(p, q) && #[trigger] leq(q, p) implies p
        == q by {
        if encode_utf8(p.0) == encode_utf8(q.0) {
            lemma_encode_utf8_injective(p.0, q.0);
            lemma_lex_le_antisym(encode_utf8(p.1), encode_utf8(q.1));
            lemma_encode_utf8_injective(p.1, q.1);
        } else {
            lemma_lex_le_antisym(encode_utf8(p.0), encode_utf8(q.0));
        }
    }
    assert forall|p: PairVal, q: PairVal, r: PairVal|
        #[trigger] leq(p, q) && #[trigger] leq(q, r) implies #[trigger] leq(p, r) by {
        let kp = encode_utf8(p.0);
        let kq = encode_utf8(q.0);
        let kr = encode_utf8(r.0);
        if kp == kq && kq == kr {
            lemma_lex_le_trans(encode_utf8(p.1), encode_utf8(q.1), encode_utf8(r.1));
        } else if kp == kq {
            // the key order between q and r carries over to p and r
        } else if kq == kr {
        } else {
            lemma_lex_le_trans(kp, kq, kr);
            if kp == kr {
                lemma_lex_le_antisym(kp, kq);
            }
        }
    }
    assert forall|p: PairVal, q: PairVal| #[trigger] leq(p, q) || #[trigger] leq(q, p) by {
        if encode_utf8(p.0) == encode_utf8(q.0) {
            lemma_lex_le_connected(encode_utf8(p.1), encode_utf8(q.1));
        } else {
            lemma_lex_le_connected(encode_utf8(p.0), encode_utf8(q.0));
        }
    }
}

/// Whether the UTF-8 bytes of `a` come at or before those of `b`.
pub fn bytes_le(a: &[u8], b: &[u8]) -> (r: bool)
    ensures
        r == lex_le(a@, b@),
{
    let mut i: usize = 0;
    let n = if a.len() < b.len() {
        a.len()
    } else {
        b.len()
    };
    proof {
        assert(a@.skip(0) =~= a@);
        assert(b@.skip(0) =~= b@);
    }
    while i < n
        invariant
            i <= n,
            n == if a@.len() < b@.len() { a@.len() } else { b@.len() },
            forall|j: int| 0 <= j < i ==> a@[j] == b@[j],
            lex_le(a@, b@) == lex_le(a@.skip(i as int), b@.skip(i as int)),
        decreases n - i,
    {
        let x = a[i];
        let y = b[i];
        proof {
            assert(a@.skip(i as int)[0] == a@[i as int]);
            assert(b@.skip(i as int)[0] == b@[i as int]);
            assert(a@.skip(i as int).drop_first() =~= a@.skip(i + 1));
            assert(b@.skip(i as int).drop_first() =~= b@.skip(i + 1));
        }
        if x < y {
            return true;
        }
        if x > y {
            return false;
        }
        i += 1;
    }
    proof {
        if a@.len() <= b@.len() {
            assert(a@.skip(i as int).len() == 0);
        } else {
            assert(b@.skip(i as int).len() == 0);
            assert(a@.skip(i as int).len() > 0);
        }
    }
    a.len() <= b.len()
}

/// The view of one held parameter.
pub open spec fn pv(p: (String, String)) -> PairVal {
    (p.0@, p.1@)
}

/// Whether parameter `p` comes at or before `q` in the signer's order.
fn pair_le_exec(p: &(String, String), q: &(String, String)) -> (r: bool)
    ensures
        r == pair_le(pv(*p), pv(*q)),
{
    if crate::text::bytes_eq(p.0.as_str().as_bytes(), q.0.as_str().as_bytes()) {
        bytes_le(p.1.as_str().as_bytes(), q.1.as_str().as_bytes())
    } else {
        bytes_le(p.0.as_str().as_bytes(), q.0.as_str().as_bytes())
    }
}

/// Sorts parameters into the signer's order by repeated insertion.
pub(crate) fn sort_pairs(input: Vec<(String, String)>) -> (r: Vec<(String, String)>)
    ensures
        sorted_by(pair_views(r@), pair_order()),
        pair_views(r@).to_multiset() == pair_views(input@).to_multiset(),
{
    broadcast use vstd::seq_lib::group_to_multiset_ensures;

    let ghost leq = pair_order();
    let ghost in_views = pair_views(input@);
    let mut out: Vec<(String, String)> = Vec::new();
    let mut i: usize = 0;
    proof {
        lemma_pair_order_total();
        assert(pair_views(out@) =~= Seq::<PairVal>::empty());
        assert(in_views.take(0) =~= Seq::<PairVal>::empty());
        assert(pair_views(out@).to_multiset() =~= in_views.take(0).to_multiset());
    }
    while i < input.len()
        invariant
            i <= input.len(),
            leq == pair_order(),
            total_ordering(leq),
            in_views == pair_views(input@),
            sorted_by(pair_views(out@), leq),
            pair_views(out@).to_multiset() == in_views.take(i as int).to_multiset(),
        decreases input.len() - i,
    {
        let p = (input[i].0.clone(), input[i].1.clone());
        let ghost pview = pv(p);
        let ghost before = pair_views(out@);
        let mut k: usize = 0;
        while k < out.len() && pair_le_exec(&out[k], &p)
            invariant
                k <= out.len(),
                pair_views(out@) == before,
                pview == pv(p),
                forall|a: int| 0 <= a < k ==> pair_le(#[trigger] before[a], pview),
            decreases out.len() - k,
        {
            proof {
                assert(before[k as int] == pv(out@[k as int]));
            }
            k += 1;
        }
        proof {
            lemma_pair_order_total();
            if k < out.len() {
                assert(!pair_le(before[k as int], pview));
                lemma_lex_le_connected(
                    encode_utf8(before[k as int].0),
                    encode_utf8(pview.0),
                );
                lemma_lex_le_connected(
                    encode_utf8(before[k as int].1),
                    encode_utf8(pview.1),
                );
                assert(pair_le(pview, before[k as int]));
            }
        }
        out.insert(k, p);
        proof {
            let after = pair_views(out@);
            assert(after =~= before.insert(k as int, pview));
            // sortedness of the grown run
            assert forall|a: int, b: int| 0 <= a < b < after.len() implies #[trigger] leq(
                after[a],
                after[b],
            ) by {
                let ka = k as int;
                if b < ka {
                    assert(leq(before[a], before[b]));
                } else if a > ka {
                    assert(leq(before[a - 1], before[b - 1]));
                } else if a == ka {
                    // after[a] is the new parameter
                    assert(pair_le(pview, before[ka]));
                    if b == ka + 1 {
                    } else {
                        assert(leq(before[ka], before[b - 1]));
                        assert(leq(pview, before[b - 1])) by {
                            lemma_pair_le_trans(pview, before[ka], before[b - 1]);
                        }
                    }
                } else if b == ka {
                    assert(pair_le(before[a], pview));
                } else {
                    // a < k < b
                    assert(leq(before[a], before[b - 1]));
                }
            }
            // the multiset gains exactly the new parameter
            broadcast use vstd::multiset::group_multiset_axioms;
            broadcast use vstd::seq_lib::group_to_multiset_ensures;

            assert(after.remove(k as int) =~= before);
            assert(after[k as int] == pview);
            assert(after.contains(pview));
            assert(after.remove(k as int).to_multiset() =~= after.to_multiset().remove(
                after[k as int],
            ));
            assert(after.to_multiset().count(pview) > 0);
            assert(after.to_multiset() =~= before.to_multiset().insert(pview));
            assert(in_views.take(i + 1) =~= in_views.take(i as int).push(in_views[i as int]));
            assert(in_views[i as int] == pview);
            assert(in_views.take(i + 1).to_multiset() =~= in_views.take(
                i as int,
            ).to_multiset().insert(pview));
        }
        i += 1;
    }
    proof {
        assert(in_views.take(input@.len() as int) =~= in_views);
    }
    out
}

proof fn lemma_pair_le_trans(p: PairVal, q: PairVal, r: PairVal)
    requires
        pair_le(p, q),
        pair_le(q, r),
    ensures
        pair_le(p, r),
{
    let kp = encode_utf8(p.0);
    let kq = encode_utf8(q.0);
    let kr = encode_utf8(r.0);
    if kp == kq && kq == kr {
        lemma_lex_le_trans(encode_utf8(p.1), encode_utf8(q.1), encode_utf8(r.1));
    } else if kp == kq {
    } else if kq == kr {
    } else {
        lemma_lex_le_trans(kp, kq, kr);
        if kp == kr {
            lemma_lex_le_antisym(kp, kq);
        }
    }
}

/// What the MD5 digest of a byte string is. MD5 is a fixed published
/// function of its input alone; its value is not restated here.
pub uninterp spec fn md5_of(input: Seq<u8>) -> Seq<u8>;

/// Relies on `md5::compute`: the 16-byte MD5 digest of the input, a
/// function of the input bytes alone.
#[verifier::external_body]
fn md5_digest(data: &Vec<u8>) -> (r: Vec<u8>)
    ensures
        r@ == md5_of(data@),
        r@.len() == 16,
{
    md5::compute(data.as_slice()).0.to_vec()
}

/// The bytes the digest is taken over: each key directly followed by its
/// value, with no delimiter.
pub open spec fn concat_pairs_bytes(s: Seq<PairVal>) -> Seq<u8>
    decreases s.len(),
{
    if s.len() == 0 {
        Seq::empty()
    } else {
        encode_utf8(s[0].0) + encode_utf8(s[0].1) + concat_pairs_bytes(s.drop_first())
    }
}

/// The signature of a set of parameters: the parameters are sorted, each
/// key is directly followed by its value, the secret is appended, and the
/// MD5 digest of those bytes is rendered as lower-case hexadecimal.
pub open spec fn signature_spec(s: Seq<PairVal>, secret: Seq<u8>) -> Seq<char> {
    hex_rep(md5_of(concat_pairs_bytes(s.sort_by(pair_order())) + secret))
}

proof fn lemma_concat_pairs_snoc(s: Seq<PairVal>, i: int)
    requires
        0 <= i < s.len(),
    ensures
        concat_pairs_bytes(s.take(i + 1)) == concat_pairs_bytes(s.take(i)) + encode_utf8(s[i].0)
            + encode_utf8(s[i].1),
    decreases i,
{
    if i == 0 {
        assert(s.take(1).drop_first() =~= Seq::empty());
        assert(s.take(0) =~= Seq::empty());
        assert(concat_pairs_bytes(s.take(1)) =~= concat_pairs_bytes(s.take(0)) + encode_utf8(
            s[0].0,
        ) + encode_utf8(s[0].1));
    } else {
        lemma_concat_pairs_snoc(s.drop_first(), i - 1);
        assert(s.take(i + 1).drop_first() =~= s.drop_first().take(i));
        assert(s.take(i).drop_first() =~= s.drop_first().take(i - 1));
        assert(concat_pairs_bytes(s.take(i + 1)) =~= concat_pairs_bytes(s.take(i)) + encode_utf8(
            s[i].0,
        ) + encode_utf8(s[i].1));
    }
}

/// The signature of the given parameters under the given secret.
pub fn signature(params: &ParameterSet, secret: &[u8]) -> (r: String)
    ensures
        r@ == signature_spec(params@, secret@),
{
    let pairs = params.pairs_vec();
    let sorted = sort_pairs(pairs);
    let ghost sviews = pair_views(sorted@);
    proof {
        lemma_pair_order_total();
        params@.lemma_sort_by_ensures(pair_order());
        lemma_sorted_unique(sviews, params@.sort_by(pair_order()), pair_order());
    }
    let mut data: Vec<u8> = Vec::new();
    let mut i: usize = 0;
    proof {
        assert(sviews.take(0) =~= Seq::<PairVal>::empty());
        assert(data@ =~= concat_pairs_bytes(sviews.take(0)));
    }
    while i < sorted.len()
        invariant
            i <= sorted.len(),
            sviews == pair_views(sorted@),
            data@ == concat_pairs_bytes(sviews.take(i as int)),
        decreases sorted.len() - i,
    {
        data.extend_from_slice(sorted[i].0.as_str().as_bytes());
        data.extend_from_slice(sorted[i].1.as_str().as_bytes());
        proof {
            lemma_concat_pairs_snoc(sviews, i as int);
        }
        i += 1;
    }
    proof {
        assert(sviews.take(sorted@.len() as int) =~= sviews);
    }
    data.extend_from_slice(secret);
    proof {
        assert(data@ == concat_pairs_bytes(sviews) + secret@);
        assert(sviews == params@.sort_by(pair_order()));
    }
    let digest = md5_digest(&data);
    proof {
        assert(digest@ == md5_of(concat_pairs_bytes(params@.sort_by(pair_order())) + secret@));
    }
    bytes_to_hex(&digest)
}

/// The order two fresh parameters are written into a set in does not
/// change its signature.
pub proof fn lemma_signature_insertion_order(
    s: Seq<PairVal>,
    p: PairVal,
    q: PairVal,
    secret: Seq<u8>,
)
    requires
        !crate::params::has_key(s, p.0),
        !crate::params::has_key(s, q.0),
        p.0 != q.0,
    ensures
        signature_spec(crate::params::upsert(crate::params::upsert(s, p), q), secret)
            == signature_spec(crate::params::upsert(crate::params::upsert(s, q), p), secret),
{
    broadcast use vstd::seq_lib::group_to_multiset_ensures;
    broadcast use vstd::multiset::group_multiset_axioms;

    crate::params::lemma_upsert_missing(s, p);
    crate::params::lemma_upsert_missing(s, q);
    assert(!crate::params::has_key(s.push(p), q.0)) by {
        assert(forall|i: int| 0 <= i < s.len() ==> (#[trigger] s.push(p)[i]) == s[i]);
        assert(s.push(p)[s.len() as int] == p);
    }
    assert(!crate::params::has_key(s.push(q), p.0)) by {
        assert(forall|i: int| 0 <= i < s.len() ==> (#[trigger] s.push(q)[i]) == s[i]);
        assert(s.push(q)[s.len() as int] == q);
    }
    crate::params::lemma_upsert_missing(s.push(p), q);
    crate::params::lemma_upsert_missing(s.push(q), p);
    assert(s.push(p).push(q).to_multiset() =~= s.push(q).push(p).to_multiset());
    lemma_signature_order_independent(s.push(p).push(q), s.push(q).push(p), secret);
}

proof fn lemma_concat_between_ne(x: Seq<u8>, a: Seq<u8>, b: Seq<u8>, t: Seq<u8>)
    requires
        a != b,
    ensures
        x + a + t != x + b + t,
{
    if a.len() != b.len() {
        assert((x + a + t).len() != (x + b + t).len());
    } else {
        assert(exists|i: int| 0 <= i < a.len() && a[i] != b[i]) by {
            if forall|i: int| 0 <= i < a.len() ==> a[i] == b[i] {
                assert(a =~= b);
            }
        }
        let i = choose|i: int| 0 <= i < a.len() && a[i] != b[i];
        assert((x + a + t)[x.len() + i] == a[i]);
        assert((x + b + t)[x.len() + i] == b[i]);
    }
}

/// The bytes the digest is taken over are sensitive to any change of one
/// parameter's value: two parameter lists that agree everywhere except in
/// the value under one key feed different bytes to the digest. (What the
/// digest itself does with differing inputs is MD5's affair and is not
/// restated here.)
pub proof fn lemma_digest_input_value_sensitive(
    s1: Seq<PairVal>,
    s2: Seq<PairVal>,
    k: int,
    secret: Seq<u8>,
)
    requires
        s1.len() == s2.len(),
        0 <= k < s1.len(),
        forall|i: int| 0 <= i < s1.len() && i != k ==> s1[i] == s2[i],
        s1[k].0 == s2[k].0,
        s1[k].1 != s2[k].1,
    ensures
        concat_pairs_bytes(s1) + secret != concat_pairs_bytes(s2) + secret,
    decreases k,
{
    if k == 0 {
        assert(s1.drop_first() =~= s2.drop_first());
        let key = encode_utf8(s1[0].0);
        let a = encode_utf8(s1[0].1);
        let b = encode_utf8(s2[0].1);
        assert(a != b) by {
            if a == b {
                lemma_encode_utf8_injective(s1[0].1, s2[0].1);
            }
        }
        let t = concat_pairs_bytes(s1.drop_first()) + secret;
        lemma_concat_between_ne(key, a, b, t);
        assert(concat_pairs_bytes(s1) + secret =~= key + a + t);
        assert(concat_pairs_bytes(s2) + secret =~= key + b + t);
    } else {
        let d1 = s1.drop_first();
        let d2 = s2.drop_first();
        assert(forall|i: int| 0 <= i < d1.len() && i != k - 1 ==> d1[i] == d2[i]);
        assert(d1[k - 1] == s1[k] && d2[k - 1] == s2[k]);
        lemma_digest_input_value_sensitive(d1, d2, k - 1, secret);
        assert(s1[0] == s2[0]);
        let head = encode_utf8(s1[0].0) + encode_utf8(s1[0].1);
        let r1 = concat_pairs_bytes(d1) + secret;
        let r2 = concat_pairs_bytes(d2) + secret;
        assert(concat_pairs_bytes(s1) + secret =~= head + r1);
        assert(concat_pairs_bytes(s2) + secret =~= head + r2);
        assert(head + r1 != head + r2) by {
            if head + r1 == head + r2 {
                assert(r1 =~= r2) by {
                    assert(forall|i: int|
                        0 <= i < r1.len() ==> r1[i] == (head + r1)[head.len() + i] && r2[i] == (
                        head + r2)[head.len() + i]);
                }
            }
        }
    }
}

/// The signature does not depend on the order the parameters were
/// gathered in: any two parameter sequences holding the same parameters
/// sign to the same string.
pub proof fn lemma_signature_order_independent(
    s1: Seq<PairVal>,
    s2: Seq<PairVal>,
    secret: Seq<u8>,
)
    requires
        s1.to_multiset() == s2.to_multiset(),
    ensures
        signature_spec(s1, secret) == signature_spec(s2, secret),
{
    lemma_pair_order_total();
    s1.lemma_sort_by_ensures(pair_order());
    s2.lemma_sort_by_ensures(pair_order());
    lemma_sorted_unique(s1.sort_by(pair_order()), s2.sort_by(pair_order()), pair_order());
}

} // verus!
