use vstd::prelude::*;

verus! {

/// A value that a store can hold: it has a model, and an exact copy of it
/// can be made.
pub trait Record: View + Sized {
    fn duplicate(&self) -> (r: Self)
        ensures
            r@ == self@,
    ;
}

/// Keys of the sequence rise strictly from one entry to the next.
pub open spec fn keys_ascending<M>(s: Seq<(u64, M)>) -> bool {
    forall|i: int, j: int| 0 <= i < j < s.len() ==> #[trigger] s[i].0 < #[trigger] s[j].0
}

/// An ordered map keyed by 64-bit identifiers. Entries are kept sorted by
/// key, so walking them gives the ascending key order.
pub struct Store<V: Record> {
    entries: Vec<(u64, V)>,
    contents: Ghost<Map<u64, V::V>>,
}

impl<V: Record> Store<V> {
    /// What the store holds, by key.
    pub closed spec fn view(&self) -> Map<u64, V::V> {
        self.contents@
    }

    /// The entries in ascending key order.
    pub closed spec fn entries(&self) -> Seq<(u64, V::V)> {
        self.entries@.map_values(|e: (u64, V)| (e.0, e.1@))
    }

    pub closed spec fn wf(&self) -> bool {
        &&& keys_ascending(self.entries())
        &&& forall|i: int|
            0 <= i < self.entries@.len() ==> #[trigger] self.contents@.contains_key(
                self.entries@[i].0,
            ) && self.contents@[self.entries@[i].0] == self.entries@[i].1@
        &&& forall|k: u64|
            #[trigger] self.contents@.contains_key(k) ==> exists|i: int|
                0 <= i < self.entries@.len() && #[trigger] self.entries@[i].0 == k
    }

    /// The entries and the map describe the same contents.
    pub proof fn lemma_entries(&self)
        requires
            self.wf(),
        ensures
            keys_ascending(self.entries()),
            self.entries().len() == self@.len(),
            forall|i: int|
                0 <= i < self.entries().len() ==> #[trigger] self@.contains_key(
                    self.entries()[i].0,
                ) && self@[self.entries()[i].0] == self.entries()[i].1,
            forall|k: u64|
                #[trigger] self@.contains_key(k) ==> exists|i: int|
                    0 <= i < self.entries().len() && #[trigger] self.entries()[i].0 == k,
    {
        let e = self.entries();
        assert forall|k: u64| #[trigger] self@.contains_key(k) implies exists|i: int|
            0 <= i < e.len() && #[trigger] e[i].0 == k by {
            let i = choose|i: int| 0 <= i < self.entries@.len() && #[trigger] self.entries@[i].0 == k;
            assert(e[i].0 == k);
        }
        let keys = Set::new(|k: u64| exists|i: int| 0 <= i < e.len() && e[i].0 == k);
        lemma_key_count(e);
        assert(self@.dom() =~= keys);
    }

    pub fn new() -> (r: Self)
        ensures
            r.wf(),
            r@ == Map::<u64, V::V>::empty(),
    {
        Store { entries: Vec::new(), contents: Ghost(Map::empty()) }
    }

    pub fn len(&self) -> (r: usize)
        requires
            self.wf(),
        ensures
            r == self@.len(),
            r == self.entries().len(),
    {
        proof {
            self.lemma_entries();
        }
        self.entries.len()
    }

    /// The key of the entry at position `i` in ascending key order.
    pub fn key_at(&self, i: usize) -> (r: u64)
        requires
            self.wf(),
            i < self.entries().len(),
        ensures
            r == self.entries()[i as int].0,
    {
        self.entries[i].0
    }

    /// The value of the entry at position `i` in ascending key order.
    pub fn value_at(&self, i: usize) -> (r: &V)
        requires
            self.wf(),
            i < self.entries().len(),
        ensures
            r@ == self.entries()[i as int].1,
    {
        &self.entries[i].1
    }

    /// The position of the first entry whose key is at least `k`.
    fn position(&self, k: u64) -> (r: usize)
        requires
            self.wf(),
        ensures
            r <= self.entries().len(),
            forall|j: int| 0 <= j < r ==> #[trigger] self.entries()[j].0 < k,
            r < self.entries().len() ==> self.entries()[r as int].0 >= k,
    {
        let mut i: usize = 0;
        while i < self.entries.len() && self.entries[i].0 < k
            invariant
                i <= self.entries@.len(),
                forall|j: int| 0 <= j < i ==> #[trigger] self.entries()[j].0 < k,
            decreases self.entries@.len() - i,
        {
            i = i + 1;
        }
        i
    }

    pub fn get(&self, k: u64) -> (r: Option<&V>)
        requires
            self.wf(),
        ensures
            r is Some <==> self@.contains_key(k),
            r is Some ==> r->0@ == self@[k],
    {
        proof {
            self.lemma_entries();
        }
        let i = self.position(k);
        if i < self.entries.len() && self.entries[i].0 == k {
            Some(&self.entries[i].1)
        } else {
            proof {
                if self@.contains_key(k) {
                    let j = choose|j: int| 0 <= j < self.entries().len() && #[trigger] self.entries()[j].0 == k;
                    if j > i {
                        assert(self.entries()[i as int].0 < self.entries()[j].0);
                    }
                }
            }
            None
        }
    }

    /// Puts `v` under `k`, and hands back what was there before.
    pub fn insert(&mut self, k: u64, v: V) -> (r: Option<V>)
        requires
            old(self).wf(),
        ensures
            final(self).wf(),
            final(self)@ == old(self)@.insert(k, v@),
            r is Some <==> old(self)@.contains_key(k),
            r is Some ==> r->0@ == old(self)@[k],
    {
        proof {
            self.lemma_entries();
        }
        let ghost vm = v@;
        let i = self.position(k);
        if i < self.entries.len() && self.entries[i].0 == k {
            let (_, prev) = self.entries.remove(i);
            proof {
                assert(old(self).contents@.contains_key(old(self).entries@[i as int].0));
            }
            self.entries.insert(i, (k, v));
            proof {
                self.contents@ = self.contents@.insert(k, vm);
                assert(self.entries() =~= old(self).entries().update(i as int, (k, vm)));
                assert forall|j: int| 0 <= j < self.entries@.len() implies #[trigger] self.contents@.contains_key(
                    self.entries@[j].0) && self.contents@[self.entries@[j].0] == self.entries@[j].1@ by {
                    if j != i {
                        assert(self.entries@[j] == old(self).entries@[j]);
                        assert(old(self).contents@.contains_key(old(self).entries@[j].0));
                        assert(old(self).entries()[j].0 != old(self).entries()[i as int].0);
                    }
                }
                assert forall|kk: u64| #[trigger] self.contents@.contains_key(kk) implies exists|j: int|
                    0 <= j < self.entries@.len() && #[trigger] self.entries@[j].0 == kk by {
                    if kk != k {
                        assert(old(self).contents@.contains_key(kk));
                        let j = choose|j: int| 0 <= j < old(self).entries@.len() && #[trigger] old(self).entries@[j].0 == kk;
                        assert(self.entries@[j].0 == kk);
                    } else {
                        assert(self.entries@[i as int].0 == kk);
                    }
                }
            }
            Some(prev)
        } else {
            self.entries.insert(i, (k, v));
            proof {
                if old(self)@.contains_key(k) {
                    let j = choose|j: int| 0 <= j < old(self).entries().len() && #[trigger] old(self).entries()[j].0 == k;
                    if j > i {
                        assert(old(self).entries()[i as int].0 < old(self).entries()[j].0);
                    }
                }
                self.contents@ = self.contents@.insert(k, vm);
                let oe = old(self).entries();
                assert(self.entries() =~= oe.subrange(0, i as int).push((k, vm)) + oe.subrange(i as int, oe.len() as int));
                assert forall|a: int, b: int| 0 <= a < b < self.entries().len() implies #[trigger] self.entries()[a].0 < #[trigger] self.entries()[b].0 by {
                    if b < i {
                    } else if b == i {
                    } else if a < i {
                        assert(oe[a].0 < oe[b - 1].0 || a == b - 1);
                    } else if a == i {
                        assert(oe[b - 1].0 >= oe[i as int].0);
                    } else {
                        assert(oe[a - 1].0 < oe[b - 1].0);
                    }
                }
                assert forall|j: int| 0 <= j < self.entries@.len() implies #[trigger] self.contents@.contains_key(
                    self.entries@[j].0) && self.contents@[self.entries@[j].0] == self.entries@[j].1@ by {
                    if j < i {
                        assert(self.entries@[j] == old(self).entries@[j]);
                        assert(old(self).contents@.contains_key(old(self).entries@[j].0));
                        assert(oe[j].0 < k);
                    } else if j > i {
                        assert(self.entries@[j] == old(self).entries@[j - 1]);
                        assert(old(self).contents@.contains_key(old(self).entries@[j - 1].0));
                        assert(oe[j - 1].0 >= oe[i as int].0);
                        assert(oe[j - 1].0 != k);
                    }
                }
                assert forall|kk: u64| #[trigger] self.contents@.contains_key(kk) implies exists|j: int|
                    0 <= j < self.entries@.len() && #[trigger] self.entries@[j].0 == kk by {
                    if kk != k {
                        let j = choose|j: int| 0 <= j < old(self).entries@.len() && #[trigger] old(self).entries@[j].0 == kk;
                        if j < i {
                            assert(self.entries@[j].0 == kk);
                        } else {
                            assert(self.entries@[j + 1].0 == kk);
                        }
                    } else {
                        assert(self.entries@[i as int].0 == kk);
                    }
                }
            }
            None
        }
    }

    /// Takes the entry under `k` out, and hands back its value.
    pub fn remove(&mut self, k: u64) -> (r: Option<V>)
        requires
            old(self).wf(),
        ensures
            final(self).wf(),
            final(self)@ == old(self)@.remove(k),
            !old(self)@.contains_key(k) ==> *final(self) == *old(self),
            r is Some <==> old(self)@.contains_key(k),
            r is Some ==> r->0@ == old(self)@[k],
    {
        proof {
            self.lemma_entries();
        }
        let i = self.position(k);
        if i < self.entries.len() && self.entries[i].0 == k {
            let (_, prev) = self.entries.remove(i);
            proof {
                assert(old(self).contents@.contains_key(old(self).entries@[i as int].0));
            }
            proof {
                self.contents@ = self.contents@.remove(k);
                let oe = old(self).entries();
                assert(self.entries() =~= oe.subrange(0, i as int) + oe.subrange(i as int + 1, oe.len() as int));
                assert forall|a: int, b: int| 0 <= a < b < self.entries().len() implies #[trigger] self.entries()[a].0 < #[trigger] self.entries()[b].0 by {
                    if b < i {
                    } else if a < i {
                        assert(oe[a].0 < oe[b + 1].0);
                    } else {
                        assert(oe[a + 1].0 < oe[b + 1].0);
                    }
                }
                assert forall|j: int| 0 <= j < self.entries@.len() implies #[trigger] self.contents@.contains_key(
                    self.entries@[j].0) && self.contents@[self.entries@[j].0] == self.entries@[j].1@ by {
                    if j < i {
                        assert(self.entries@[j] == old(self).entries@[j]);
                        assert(old(self).contents@.contains_key(old(self).entries@[j].0));
                        assert(oe[j].0 < oe[i as int].0);
                    } else {
                        assert(self.entries@[j] == old(self).entries@[j + 1]);
                        assert(old(self).contents@.contains_key(old(self).entries@[j + 1].0));
                        assert(oe[i as int].0 < oe[j + 1].0);
                    }
                }
                assert forall|kk: u64| #[trigger] self.contents@.contains_key(kk) implies exists|j: int|
                    0 <= j < self.entries@.len() && #[trigger] self.entries@[j].0 == kk by {
                    let j = choose|j: int| 0 <= j < old(self).entries@.len() && #[trigger] old(self).entries@[j].0 == kk;
                    if j < i {
                        assert(self.entries@[j].0 == kk);
                    } else {
                        assert(j != i);
                        assert(self.entries@[j - 1].0 == kk);
                    }
                }
            }
            Some(prev)
        } else {
            proof {
                if old(self)@.contains_key(k) {
                    let j = choose|j: int| 0 <= j < old(self).entries().len() && #[trigger] old(self).entries()[j].0 == k;
                    if j > i {
                        assert(old(self).entries()[i as int].0 < old(self).entries()[j].0);
                    }
                }
                assert(self.contents@ =~= old(self)@.remove(k));
            }
            None
        }
    }
}

/// Strictly ascending keys are distinct, so there are as many keys as entries.
proof fn lemma_key_count<M>(e: Seq<(u64, M)>)
    requires
        keys_ascending(e),
    ensures
        Set::new(|k: u64| exists|i: int| 0 <= i < e.len() && e[i].0 == k).len() == e.len(),
        Set::new(|k: u64| exists|i: int| 0 <= i < e.len() && e[i].0 == k).finite(),
    decreases e.len(),
{
    let keys = Set::new(|k: u64| exists|i: int| 0 <= i < e.len() && e[i].0 == k);
    if e.len() == 0 {
        assert(keys =~= Set::empty());
    } else {
        let p = e.drop_last();
        assert(keys_ascending(p)) by {
            assert forall|i: int, j: int| 0 <= i < j < p.len() implies #[trigger] p[i].0 < #[trigger] p[j].0 by {
                assert(e[i].0 < e[j].0);
            }
        }
        lemma_key_count(p);
        let pk = Set::new(|k: u64| exists|i: int| 0 <= i < p.len() && p[i].0 == k);
        let last = e.last().0;
        assert(keys =~= pk.insert(last)) by {
            assert forall|k: u64| keys.contains(k) implies pk.insert(last).contains(k) by {
                let i = choose|i: int| 0 <= i < e.len() && e[i].0 == k;
                if i < p.len() {
                    assert(p[i].0 == k);
                }
            }
            assert forall|k: u64| pk.contains(k) implies keys.contains(k) by {
                let i = choose|i: int| 0 <= i < p.len() && p[i].0 == k;
                assert(e[i].0 == k);
            }
            assert(e[e.len() - 1].0 == last);
        }
        assert(!pk.contains(last)) by {
            if pk.contains(last) {
                let i = choose|i: int| 0 <= i < p.len() && p[i].0 == last;
                assert(e[i].0 < e[e.len() - 1].0);
            }
        }
    }
}

} // verus!
