//! An insertion-ordered property-to-value association with unique keys:
//! inserting an existing key replaces its value in place, a new key goes to
//! the end. Both settings and constraint sets are built on it, so insertion
//! order — which drives filter evaluation order and error blame — is part
//! of the model.

use vstd::prelude::*;

use crate::property::Property;

verus! {

/// The value of `p` in `s`: the first entry with key `p`, if any.
pub open spec fn plookup<V>(s: Seq<(Property, V)>, p: Property) -> Option<V>
    decreases s.len(),
{
    if s.len() == 0 {
        None
    } else if s[0].0 == p {
        Some(s[0].1)
    } else {
        plookup(s.skip(1), p)
    }
}

/// `s` with `p` bound to `v`: replaced in place when `p` is present, else
/// appended.
pub open spec fn pupsert<V>(s: Seq<(Property, V)>, p: Property, v: V) -> Seq<(Property, V)>
    decreases s.len(),
{
    if s.len() == 0 {
        seq![(p, v)]
    } else if s[0].0 == p {
        seq![(p, v)] + s.skip(1)
    } else {
        seq![s[0]] + pupsert(s.skip(1), p, v)
    }
}

/// The association built from `pairs`, first to last, by [`pupsert`].
pub open spec fn pbuild<V>(pairs: Seq<(Property, V)>) -> Seq<(Property, V)>
    decreases pairs.len(),
{
    if pairs.len() == 0 {
        Seq::empty()
    } else {
        pupsert(pbuild(pairs.drop_last()), pairs.last().0, pairs.last().1)
    }
}

proof fn lemma_pupsert_split<V>(s: Seq<(Property, V)>, p: Property, v: V, i: int)
    requires
        0 <= i <= s.len(),
        forall|j: int| 0 <= j < i ==> s[j].0 != p,
    ensures
        pupsert(s, p, v) == s.take(i) + pupsert(s.skip(i), p, v),
    decreases i,
{
    if i == 0 {
        assert(s.skip(0) =~= s);
        assert(s.take(0) + pupsert(s, p, v) =~= pupsert(s, p, v));
    } else {
        lemma_pupsert_split(s.skip(1), p, v, i - 1);
        assert(s.take(i) =~= seq![s[0]] + s.skip(1).take(i - 1));
        assert(s.skip(i) =~= s.skip(1).skip(i - 1));
        assert(pupsert(s, p, v) =~= s.take(i) + pupsert(s.skip(i), p, v));
    }
}

/// Binding a property that is absent appends the pair.
pub proof fn lemma_pupsert_absent<V>(s: Seq<(Property, V)>, p: Property, v: V)
    requires
        forall|t: int| 0 <= t < s.len() ==> s[t].0 != p,
    ensures
        pupsert(s, p, v) == s.push((p, v)),
    decreases s.len(),
{
    if s.len() == 0 {
        assert(pupsert(s, p, v) =~= s.push((p, v)));
    } else {
        lemma_pupsert_absent(s.skip(1), p, v);
        assert(seq![s[0]] + s.skip(1).push((p, v)) =~= s.push((p, v)));
    }
}

/// Building from pairs with pairwise distinct keys keeps them exactly as
/// given.
pub proof fn lemma_pbuild_distinct<V>(ps: Seq<(Property, V)>)
    requires
        forall|i: int, j: int| 0 <= i < j < ps.len() ==> ps[i].0 != ps[j].0,
    ensures
        pbuild(ps) == ps,
    decreases ps.len(),
{
    if ps.len() > 0 {
        lemma_pbuild_distinct(ps.drop_last());
        lemma_pupsert_absent(ps.drop_last(), ps.last().0, ps.last().1);
        assert(ps.drop_last().push(ps.last()) =~= ps);
    }
}

/// An insertion-ordered association from properties to values of `V`.
#[derive(Clone, Debug, PartialEq)]
pub struct PropMap<V> {
    entries: Vec<(Property, V)>,
}

impl<V> View for PropMap<V> {
    type V = Seq<(Property, V)>;

    closed spec fn view(&self) -> Seq<(Property, V)> {
        self.entries@
    }
}

impl<V> PropMap<V> {
    /// The empty association.
    pub fn empty() -> (r: Self)
        ensures
            r@ == Seq::<(Property, V)>::empty(),
    {
        let r = PropMap { entries: Vec::new() };
        proof {
            assert(r@ =~= Seq::<(Property, V)>::empty());
        }
        r
    }

    /// The number of entries.
    pub fn len(&self) -> (r: usize)
        ensures
            r == self@.len(),
    {
        self.entries.len()
    }

    /// The entry at position `i`.
    pub fn entry(&self, i: usize) -> (r: &(Property, V))
        requires
            i < self@.len(),
        ensures
            *r == self@[i as int],
    {
        &self.entries[i]
    }

    /// Binds `p` to `v`, replacing in place or appending, as [`pupsert`]
    /// says.
    pub fn set_entry(&mut self, p: Property, v: V)
        ensures
            final(self)@ == pupsert(old(self)@, p, v),
    {
        let ghost s0 = old(self)@;
        let ghost vv = v;
        let mut i: usize = 0;
        while i < self.entries.len()
            invariant
                0 <= i <= self@.len(),
                self@ == old(self)@,
                s0 == old(self)@,
                vv == v,
                forall|j: int| 0 <= j < i ==> s0[j].0 != p,
            decreases self@.len() - i,
        {
            if self.entries[i].0 == p {
                proof {
                    lemma_pupsert_split(s0, p, vv, i as int);
                    assert(s0.skip(i as int)[0] == s0[i as int]);
                    assert(pupsert(s0.skip(i as int), p, vv) == seq![(p, vv)] + s0.skip(
                        i as int,
                    ).skip(1));
                    assert(s0.skip(i as int).skip(1) =~= s0.skip(i as int + 1));
                }
                self.entries.remove(i);
                proof {
                    assert(self@ =~= s0.take(i as int) + s0.skip(i as int + 1));
                }
                self.entries.insert(i, (p, v));
                proof {
                    assert(self@ =~= s0.take(i as int) + (seq![(p, vv)] + s0.skip(i as int + 1)));
                    assert(self@ == pupsert(s0, p, vv));
                }
                return ;
            }
            i = i + 1;
        }
        proof {
            lemma_pupsert_split(s0, p, vv, i as int);
            assert(s0.skip(i as int).len() == 0);
            assert(pupsert(s0.skip(i as int), p, vv) =~= seq![(p, vv)]);
        }
        self.entries.push((p, v));
        proof {
            assert(self@ =~= s0.take(s0.len() as int) + seq![(p, vv)]);
            assert(self@ == pupsert(s0, p, vv));
        }
    }

    /// The association built from `pairs`, first to last.
    pub fn from_pairs(pairs: Vec<(Property, V)>) -> (r: Self)
        ensures
            r@ == pbuild(pairs@),
    {
        let ghost pairs0 = pairs@;
        let mut pairs = pairs;
        let mut r = PropMap::<V>::empty();
        let ghost mut i: int = 0;
        while pairs.len() > 0
            invariant
                0 <= i <= pairs0.len(),
                pairs@ == pairs0.skip(i),
                r@ == pbuild(pairs0.take(i)),
            decreases pairs@.len(),
    {
            let pr = pairs.remove(0);
            proof {
                assert(pr == pairs0[i]);
                assert(pairs0.skip(i).remove(0) =~= pairs0.skip(i + 1));
                assert(pairs0.take(i + 1).drop_last() =~= pairs0.take(i));
                assert(pairs0.take(i + 1).last() == pairs0[i]);
            }
            r.set_entry(pr.0, pr.1);
            proof {
                assert(r@ == pbuild(pairs0.take(i + 1)));
                i = i + 1;
            }
        }
        proof {
            assert(pairs0.take(i) =~= pairs0);
        }
        r
    }

    /// The association holding exactly `entries`, in that order.
    pub fn from_entries_raw(entries: Vec<(Property, V)>) -> (r: Self)
        ensures
            r@ == entries@,
    {
        PropMap { entries }
    }

    /// The entries, surrendered in order.
    pub fn into_entries(self) -> (r: Vec<(Property, V)>)
        ensures
            r@ == self@,
    {
        self.entries
    }

    /// Looks up `p`, as [`plookup`] says.
    pub fn get(&self, p: Property) -> (r: Option<&V>)
        ensures
            match r {
                Some(v) => plookup(self@, p) == Some(*v),
                None => plookup(self@, p) is None,
            },
    {
        let mut i: usize = 0;
        proof {
            assert(self@.skip(0) =~= self@);
        }
        while i < self.entries.len()
            invariant
                0 <= i <= self@.len(),
                plookup(self@, p) == plookup(self@.skip(i as int), p),
            decreases self@.len() - i,
        {
            let e = &self.entries[i];
            if e.0 == p {
                proof {
                    assert(self@.skip(i as int)[0] == self@[i as int]);
                }
                return Some(&e.1);
            }
            proof {
                assert(self@.skip(i as int)[0] == self@[i as int]);
                assert(self@.skip(i as int).skip(1) =~= self@.skip(i as int + 1));
            }
            i = i + 1;
        }
        None
    }
}

} // verus!
