//! The set of transport parameters of one API call: a mapping from
//! parameter name to string value, keys unique, last write wins.

use vstd::prelude::*;
use vstd::string::StringExecFns;
use crate::text::str_eq;

verus! {

/// One parameter, as its mathematical value.
pub type PairVal = (Seq<char>, Seq<char>);

/// Whether some entry of `s` has the key `k`.
pub open spec fn has_key(s: Seq<PairVal>, k: Seq<char>) -> bool {
    exists|i: int| 0 <= i < s.len() && s[i].0 == k
}

/// Whether no two entries of `s` share a key.
pub open spec fn unique_keys(s: Seq<PairVal>) -> bool {
    forall|i: int, j: int| 0 <= i < j < s.len() ==> s[i].0 != s[j].0
}

/// The value at key `k`: that of the first entry holding it.
pub open spec fn lookup(s: Seq<PairVal>, k: Seq<char>) -> Option<Seq<char>>
    decreases s.len(),
{
    if s.len() == 0 {
        None
    } else if s[0].0 == k {
        Some(s[0].1)
    } else {
        lookup(s.drop_first(), k)
    }
}

/// `s` with the entry `p` written: the entry holding `p`'s key is
/// replaced in place, or `p` is appended when the key is new.
pub open spec fn upsert(s: Seq<PairVal>, p: PairVal) -> Seq<PairVal>
    decreases s.len(),
{
    if s.len() == 0 {
        seq![p]
    } else if s[0].0 == p.0 {
        seq![p] + s.drop_first()
    } else {
        seq![s[0]] + upsert(s.drop_first(), p)
    }
}

/// `s` with every entry of `items` written in order.
pub open spec fn upsert_all(s: Seq<PairVal>, items: Seq<PairVal>) -> Seq<PairVal>
    decreases items.len(),
{
    if items.len() == 0 {
        s
    } else {
        upsert_all(upsert(s, items[0]), items.drop_first())
    }
}

/// The mathematical values of a sequence of string pairs.
pub open spec fn pair_views(s: Seq<(String, String)>) -> Seq<PairVal> {
    Seq::new(s.len(), |i: int| (s[i].0@, s[i].1@))
}

/// A set of named string parameters with unique keys; writing an existing
/// key replaces its value.
pub struct ParameterSet {
    pairs: Vec<(String, String)>,
}

impl View for ParameterSet {
    type V = Seq<PairVal>;

    closed spec fn view(&self) -> Seq<PairVal> {
        pair_views(self.pairs@)
    }
}

proof fn lemma_upsert_found(s: Seq<PairVal>, p: PairVal, i: int)
    requires
        0 <= i < s.len(),
        s[i].0 == p.0,
        forall|j: int| 0 <= j < i ==> s[j].0 != p.0,
    ensures
        upsert(s, p) == s.update(i, p),
    decreases i,
{
    if i == 0 {
        assert(upsert(s, p) =~= s.update(0, p));
    } else {
        lemma_upsert_found(s.drop_first(), p, i - 1);
        assert(s.drop_first().update(i - 1, p) =~= s.update(i, p).drop_first());
        assert(upsert(s, p) =~= s.update(i, p));
    }
}

/// Writing a fresh key appends its pair.
pub proof fn lemma_upsert_missing(s: Seq<PairVal>, p: PairVal)
    requires
        !has_key(s, p.0),
    ensures
        upsert(s, p) == s.push(p),
    decreases s.len(),
{
    if s.len() == 0 {
        assert(upsert(s, p) =~= s.push(p));
    } else {
        assert(!has_key(s.drop_first(), p.0)) by {
            assert(forall|i: int|
                0 <= i < s.drop_first().len() ==> s.drop_first()[i] == s[i + 1]);
        }
        lemma_upsert_missing(s.drop_first(), p);
        assert(upsert(s, p) =~= s.push(p));
    }
}

proof fn lemma_upsert_all_snoc(s: Seq<PairVal>, items: Seq<PairVal>, i: int)
    requires
        0 <= i < items.len(),
    ensures
        upsert_all(s, items.take(i + 1)) == upsert(upsert_all(s, items.take(i)), items[i]),
    decreases i,
{
    if i == 0 {
        assert(items.take(0) =~= Seq::empty());
        assert(items.take(1) =~= seq![items[0]]);
        assert(items.take(1).drop_first() =~= Seq::empty());
        assert(items.take(1)[0] == items[0]);
        assert(upsert_all(s, items.take(1)) == upsert_all(
            upsert(s, items[0]),
            Seq::empty(),
        ));
    } else {
        let u = upsert(s, items[0]);
        let d = items.drop_first();
        lemma_upsert_all_snoc(u, d, i - 1);
        assert(items.take(i + 1).drop_first() =~= d.take(i));
        assert(items.take(i).drop_first() =~= d.take(i - 1));
        assert(items.take(i + 1)[0] == items[0]);
        assert(items.take(i)[0] == items[0]);
        assert(d[i - 1] == items[i]);
        assert(upsert_all(s, items.take(i + 1)) == upsert_all(u, d.take(i)));
        assert(upsert_all(s, items.take(i)) == upsert_all(u, d.take(i - 1)));
    }
}

impl ParameterSet {
    /// Whether the set is well formed: no key occurs twice.
    pub open spec fn wf(&self) -> bool {
        unique_keys(self@)
    }

    /// The empty parameter set.
    pub fn empty() -> (r: ParameterSet)
        ensures
            r@ == Seq::<PairVal>::empty(),
            r.wf(),
    {
        let r = ParameterSet { pairs: Vec::new() };
        proof {
            assert(r@ =~= Seq::<PairVal>::empty());
        }
        r
    }

    /// The number of parameters held.
    pub fn len(&self) -> (n: usize)
        ensures
            n == self@.len(),
    {
        self.pairs.len()
    }

    /// A copy of the parameters, in their held order.
    pub fn pairs_vec(&self) -> (r: Vec<(String, String)>)
        ensures
            pair_views(r@) == self@,
    {
        let mut r: Vec<(String, String)> = Vec::new();
        let mut i: usize = 0;
        while i < self.pairs.len()
            invariant
                i <= self.pairs.len(),
                r@.len() == i,
                forall|j: int|
                    0 <= j < i ==> (#[trigger] r@[j].0)@ == self@[j].0 && r@[j].1@ == self@[j].1,
            decreases self.pairs.len() - i,
        {
            r.push((self.pairs[i].0.clone(), self.pairs[i].1.clone()));
            i += 1;
        }
        proof {
            assert(pair_views(r@) =~= self@);
        }
        r
    }

    /// Writes one parameter; an existing entry of the same key is
    /// overwritten in place.
    pub fn insert(&mut self, key: &str, value: &str)
        requires
            old(self).wf(),
        ensures
            final(self).wf(),
            final(self)@ == upsert(old(self)@, (key@, value@)),
    {
        let ghost s0 = self@;
        let ghost p: PairVal = (key@, value@);
        let mut i: usize = 0;
        while i < self.pairs.len()
            invariant
                i <= self.pairs.len(),
                self@ == s0,
                s0 == old(self)@,
                p == (key@, value@),
                unique_keys(s0),
                forall|j: int| 0 <= j < i ==> s0[j].0 != key@,
            decreases self.pairs.len() - i,
        {
            if str_eq(self.pairs[i].0.as_str(), key) {
                proof {
                    assert(s0 == pair_views(self.pairs@));
                    assert(s0[i as int] == (self.pairs@[i as int].0@, self.pairs@[i as int].1@));
                    assert(s0[i as int].0 == key@);
                }
                self.pairs.remove(i);
                self.pairs.insert(i, (String::from_str(key), String::from_str(value)));
                proof {
                    lemma_upsert_found(s0, p, i as int);
                    assert(self@ =~= s0.update(i as int, p));
                    assert(final(self).wf()) by {
                        assert(forall|a: int, b: int|
                            0 <= a < b < self@.len() ==> self@[a].0 != self@[b].0);
                    }
                }
                return;
            }
            i += 1;
        }
        self.pairs.push((String::from_str(key), String::from_str(value)));
        proof {
            assert(!has_key(s0, key@));
            lemma_upsert_missing(s0, p);
            assert(self@ =~= s0.push(p));
        }
    }

    /// Writes every pair of `items`, in order: later entries win over both
    /// the held parameters and earlier entries of `items`.
    pub fn extend(&mut self, items: &Vec<(String, String)>)
        requires
            old(self).wf(),
        ensures
            final(self).wf(),
            final(self)@ == upsert_all(old(self)@, pair_views(items@)),
    {
        let ghost s0 = self@;
        let ghost views = pair_views(items@);
        let mut i: usize = 0;
        proof {
            assert(views.take(0) =~= Seq::empty());
        }
        while i < items.len()
            invariant
                i <= items.len(),
                self.wf(),
                s0 == old(self)@,
                views == pair_views(items@),
                self@ == upsert_all(s0, views.take(i as int)),
            decreases items.len() - i,
        {
            self.insert(items[i].0.as_str(), items[i].1.as_str());
            proof {
                lemma_upsert_all_snoc(s0, views, i as int);
            }
            i += 1;
        }
        proof {
            assert(views.take(items@.len() as int) =~= views);
        }
    }
}

} // verus!
