//! The store behind a cache: a map from identifiers to expiring entries.
//!
//! The entries sit in a `Vec` of pairs whose identifiers are pairwise
//! distinct; a ghost map records what the store means.
use vstd::prelude::*;

use crate::expiring::Expiring;

verus! {

/// A mapping from identifiers to entries; each identifier occurs at most once.
pub struct CacheStore<V> {
    entries: Vec<(String, Expiring<V>)>,
    contents: Ghost<Map<Seq<char>, Expiring<V>>>,
}

impl<V> View for CacheStore<V> {
    type V = Map<Seq<char>, Expiring<V>>;

    closed spec fn view(&self) -> Map<Seq<char>, Expiring<V>> {
        self.contents@
    }
}

impl<V> CacheStore<V> {
    spec fn key_at(&self, i: int) -> Seq<char> {
        self.entries@[i].0@
    }

    /// The entries list each identifier of the map once, with its entry.
    pub closed spec fn wf(&self) -> bool {
        &&& self.contents@.dom().finite()
        &&& self.contents@.len() == self.entries@.len()
        &&& forall|i: int, j: int|
            0 <= i < j < self.entries@.len() ==> self.key_at(i) != self.key_at(j)
        &&& forall|i: int|
            0 <= i < self.entries@.len() ==> {
                &&& self.contents@.contains_key(#[trigger] self.key_at(i))
                &&& self.contents@[self.key_at(i)] == self.entries@[i].1
            }
        &&& forall|k: Seq<char>|
            #[trigger] self.contents@.contains_key(k) ==> exists|i: int|
                0 <= i < self.entries@.len() && self.key_at(i) == k
    }

    /// A well-formed store holds finitely many entries.
    pub proof fn lemma_finite(&self)
        requires
            self.wf(),
        ensures
            self@.dom().finite(),
    {
    }

    /// An empty store.
    pub fn new() -> (r: Self)
        ensures
            r.wf(),
            r@ == Map::<Seq<char>, Expiring<V>>::empty(),
    {
        CacheStore { entries: Vec::new(), contents: Ghost(Map::empty()) }
    }

    /// The number of entries, live and stale alike.
    pub fn len(&self) -> (r: usize)
        requires
            self.wf(),
        ensures
            r == self@.len(),
    {
        self.entries.len()
    }

    /// The position of `identifier` in the entries, if it is there.
    fn position(&self, identifier: &String) -> (r: Option<usize>)
        requires
            self.wf(),
        ensures
            match r {
                Some(i) => i < self.entries@.len() && self.key_at(i as int) == identifier@,
                None => !self@.contains_key(identifier@),
            },
    {
        let mut i: usize = 0;
        while i < self.entries.len()
            invariant
                self.wf(),
                i <= self.entries@.len(),
                forall|j: int| 0 <= j < i ==> self.key_at(j) != identifier@,
            decreases self.entries@.len() - i,
        {
            if self.entries[i].0 == *identifier {
                return Some(i);
            }
            i = i + 1;
        }
        None
    }

    /// The entry stored under `identifier`, if any.
    pub fn get(&self, identifier: &String) -> (r: Option<&Expiring<V>>)
        requires
            self.wf(),
        ensures
            match r {
                Some(e) => self@.contains_key(identifier@) && *e == self@[identifier@],
                None => !self@.contains_key(identifier@),
            },
    {
        match self.position(identifier) {
            Some(i) => Some(&self.entries[i].1),
            None => None,
        }
    }

    /// Stores `entry` under `identifier`, replacing what was there.
    pub fn insert(&mut self, identifier: String, entry: Expiring<V>)
        requires
            old(self).wf(),
        ensures
            final(self).wf(),
            final(self)@ == old(self)@.insert(identifier@, entry),
    {
        let ghost key = identifier@;
        let ghost m = self.contents@.insert(key, entry);
        let ghost pos: int;
        let ghost fresh: bool;
        match self.position(&identifier) {
            Some(i) => {
                self.entries.set(i, (identifier, entry));
                self.contents = Ghost(m);
                proof {
                    pos = i as int;
                    fresh = false;
                }
                assert(self.contents@.dom() =~= old(self).contents@.dom());
            },
            None => {
                self.entries.push((identifier, entry));
                self.contents = Ghost(m);
                proof {
                    pos = self.entries@.len() - 1;
                    fresh = true;
                }
            },
        }
        assert(self.key_at(pos) == key);
        assert forall|j: int| 0 <= j < self.entries@.len() && j != pos implies self.entries@[j]
            == old(self).entries@[j] && old(self).key_at(j) != key by {
            if fresh {
                assert(old(self).contents@.contains_key(old(self).key_at(j)));
            } else if j < pos {
                assert(old(self).key_at(j) != old(self).key_at(pos));
            } else {
                assert(old(self).key_at(pos) != old(self).key_at(j));
            }
        }
        assert forall|i: int, j: int| 0 <= i < j < self.entries@.len() implies self.key_at(i)
            != self.key_at(j) by {
            if i != pos && j != pos {
                assert(old(self).key_at(i) != old(self).key_at(j));
            } else if i == pos {
                assert(self.entries@[j] == old(self).entries@[j] && old(self).key_at(j) != key);
            } else {
                assert(self.entries@[i] == old(self).entries@[i] && old(self).key_at(i) != key);
            }
        }
        assert forall|j: int| 0 <= j < self.entries@.len() implies {
            &&& self.contents@.contains_key(#[trigger] self.key_at(j))
            &&& self.contents@[self.key_at(j)] == self.entries@[j].1
        } by {
            if j != pos {
                assert(old(self).contents@.contains_key(old(self).key_at(j)));
            }
        }
        assert forall|k: Seq<char>| #[trigger] self.contents@.contains_key(k) implies exists|i: int|
            0 <= i < self.entries@.len() && self.key_at(i) == k by {
            if k == key {
                assert(0 <= pos < self.entries@.len() && self.key_at(pos) == k);
            } else {
                assert(old(self).contents@.contains_key(k));
                let j = choose|j: int| 0 <= j < old(self).entries@.len() && old(self).key_at(j) == k;
                assert(j != pos);
                assert(0 <= j < self.entries@.len() && self.key_at(j) == k);
            }
        }
    }

    /// Removes the entry under `identifier`; does nothing if there is none.
    pub fn remove(&mut self, identifier: &String)
        requires
            old(self).wf(),
        ensures
            final(self).wf(),
            final(self)@ == old(self)@.remove(identifier@),
    {
        let ghost key = identifier@;
        match self.position(identifier) {
            Some(i) => {
                self.entries.remove(i);
                self.contents = Ghost(self.contents@.remove(key));
                assert forall|j: int| 0 <= j < self.entries@.len() implies #[trigger] self.key_at(j)
                    == old(self).key_at(if j < i { j } else { j + 1 }) && self.entries@[j]
                    == old(self).entries@[if j < i { j } else { j + 1 }] && self.key_at(j)
                    != key by {
                    let o = if j < i { j } else { j + 1 };
                    assert(self.entries@[j] == old(self).entries@[o]);
                    if o < i {
                        assert(old(self).key_at(o) != old(self).key_at(i as int));
                    } else {
                        assert(old(self).key_at(i as int) != old(self).key_at(o));
                    }
                }
                assert forall|a: int, b: int| 0 <= a < b < self.entries@.len() implies self.key_at(a)
                    != self.key_at(b) by {
                    let oa = if a < i { a } else { a + 1 };
                    let ob = if b < i { b } else { b + 1 };
                    assert(old(self).key_at(oa) != old(self).key_at(ob));
                }
                assert forall|j: int| 0 <= j < self.entries@.len() implies {
                    &&& self.contents@.contains_key(#[trigger] self.key_at(j))
                    &&& self.contents@[self.key_at(j)] == self.entries@[j].1
                } by {
                    let o = if j < i { j } else { j + 1 };
                    assert(old(self).contents@.contains_key(old(self).key_at(o)));
                }
                assert forall|k: Seq<char>| #[trigger] self.contents@.contains_key(k) implies exists|j: int|
                    0 <= j < self.entries@.len() && self.key_at(j) == k by {
                    assert(old(self).contents@.contains_key(k));
                    let o = choose|o: int| 0 <= o < old(self).entries@.len() && old(self).key_at(o) == k;
                    assert(o != i);
                    let j = if o < i { o } else { o - 1 };
                    assert(self.key_at(j) == old(self).key_at(o));
                    assert(0 <= j < self.entries@.len() && self.key_at(j) == k);
                }
            },
            None => {
                assert(self.contents@ =~= self.contents@.remove(key));
            },
        }
    }

    /// Removes every entry.
    pub fn clear(&mut self)
        requires
            old(self).wf(),
        ensures
            final(self).wf(),
            final(self)@ == Map::<Seq<char>, Expiring<V>>::empty(),
    {
        self.entries.clear();
        self.contents = Ghost(Map::empty());
    }
}

} // verus!
