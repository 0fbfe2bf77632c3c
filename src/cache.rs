//! The cache: a store of expiring entries, a loader and a key mapper.
//!
//! A read looks the identifier of its key up and serves the entry while it
//! is live. Otherwise the caller runs the loader, which may suspend, and
//! hands its outcome to `cache_item`: a success is stored under the
//! identifier, a failure leaves the store as it was.
use vstd::prelude::*;

use crate::expiring::Expiring;
use crate::store::CacheStore;

verus! {

/// The entry under `identifier` in `m`, if there is one and it is live at
/// the instant `now`.
pub open spec fn live_entry<V>(m: Map<Seq<char>, Expiring<V>>, identifier: Seq<char>, now: int) -> Option<Expiring<V>> {
    if m.contains_key(identifier) && !m[identifier].expired_at(now) {
        Some(m[identifier])
    } else {
        None
    }
}

/// The store `m` after a load for `identifier` that ended with `outcome`.
pub open spec fn after_load<V, E>(
    m: Map<Seq<char>, Expiring<V>>,
    identifier: Seq<char>,
    outcome: Result<Expiring<V>, E>,
) -> Map<Seq<char>, Expiring<V>> {
    match outcome {
        Ok(item) => m.insert(identifier, item),
        Err(_) => m,
    }
}

/// `b` is a copy of `a`: the same instant, and a clone of the value.
pub open spec fn copy_of<V: Clone>(a: Expiring<V>, b: Expiring<V>) -> bool {
    b.expires_at == a.expires_at && cloned(a.value, b.value)
}

/// What a read of a key decides: serve a live entry, or load a value to be
/// stored under the key's identifier.
#[derive(Debug)]
pub enum Lookup<V> {
    Hit(Expiring<V>),
    Miss(String),
}

/// Borrowed views of the loader and the key mapper of a cache.
pub struct CacheConfig<K, V, F, G> {
    pub load: F,
    pub get_key_for_map: G,
    pub _phantom: std::marker::PhantomData<(K, V)>,
}

/// A cache of values of type `V` for keys of type `K`, loaded by `F` and
/// stored under the identifiers that `G` gives to keys.
pub struct Cache<K, V, F, G> {
    map: CacheStore<V>,
    load: F,
    get_key_for_map: G,
    _phantom: std::marker::PhantomData<K>,
}

impl<K, V, F, G> View for Cache<K, V, F, G> {
    type V = Map<Seq<char>, Expiring<V>>;

    closed spec fn view(&self) -> Map<Seq<char>, Expiring<V>> {
        self.map@
    }
}

impl<K, V, F, G> Cache<K, V, F, G> {
    /// The store is well formed.
    pub closed spec fn wf(&self) -> bool {
        self.map.wf()
    }

    /// The loader that the cache was made with.
    pub closed spec fn loader(&self) -> F {
        self.load
    }

    /// The key mapper that the cache was made with.
    pub closed spec fn key_mapper(&self) -> G {
        self.get_key_for_map
    }

    /// A well-formed cache holds finitely many entries.
    pub proof fn lemma_finite(&self)
        requires
            self.wf(),
        ensures
            self@.dom().finite(),
    {
        self.map.lemma_finite();
    }

    /// Creates an empty cache with the given loader and key mapper.
    pub fn new(load: F, get_key_for_map: G) -> (r: Self)
        ensures
            r.wf(),
            r@ == Map::<Seq<char>, Expiring<V>>::empty(),
            r.loader() == load,
            r.key_mapper() == get_key_for_map,
    {
        Cache {
            map: CacheStore::new(),
            load,
            get_key_for_map,
            _phantom: std::marker::PhantomData,
        }
    }

    /// Borrows the loader and the key mapper.
    pub fn get_config(&self) -> (r: CacheConfig<K, V, &F, &G>)
        ensures
            *r.load == self.loader(),
            *r.get_key_for_map == self.key_mapper(),
    {
        CacheConfig {
            load: &self.load,
            get_key_for_map: &self.get_key_for_map,
            _phantom: std::marker::PhantomData,
        }
    }

    /// The number of entries held, live and stale alike.
    pub fn size(&self) -> (r: usize)
        requires
            self.wf(),
        ensures
            r == self@.len(),
    {
        self.map.len()
    }

    /// Removes every entry.
    pub fn delete_all(&mut self)
        requires
            old(self).wf(),
        ensures
            final(self).wf(),
            final(self)@ == Map::<Seq<char>, Expiring<V>>::empty(),
            final(self)@.len() == 0,
            final(self).loader() == old(self).loader(),
            final(self).key_mapper() == old(self).key_mapper(),
    {
        self.map.clear();
    }

    /// Removes the entry stored under `identifier`, if any.
    pub fn delete_identifier(&mut self, identifier: &String)
        requires
            old(self).wf(),
        ensures
            final(self).wf(),
            final(self)@ == old(self)@.remove(identifier@),
            final(self).loader() == old(self).loader(),
            final(self).key_mapper() == old(self).key_mapper(),
    {
        self.map.remove(identifier);
    }
}

impl<K, V: Clone, F, G> Cache<K, V, F, G> {
    /// The entry under `identifier`, copied, if it is live at the instant
    /// `now`.
    pub fn get_non_expired_at(&self, identifier: &String, now: u128) -> (r: Option<Expiring<V>>)
        requires
            self.wf(),
        ensures
            match live_entry(self@, identifier@, now as int) {
                Some(e) => r matches Some(c) && copy_of(e, c),
                None => r is None,
            },
    {
        match self.map.get(identifier) {
            Some(item) => {
                if !item.is_expired_at(now) {
                    Some(item.clone())
                } else {
                    None
                }
            },
            None => None,
        }
    }

    /// The entry under `identifier`, copied, if it is live now.
    pub fn get_non_expired(&self, identifier: &String) -> (r: Option<Expiring<V>>)
        requires
            self.wf(),
        ensures
            exists|t: int|
                0 <= t <= u128::MAX && match #[trigger] live_entry(self@, identifier@, t) {
                    Some(e) => r matches Some(c) && copy_of(e, c),
                    None => r is None,
                },
    {
        let t = crate::expiring::clock_now();
        self.get_non_expired_at(identifier, t)
    }

    /// Takes the outcome of a load for `identifier`. A loaded item is stored
    /// under `identifier`, replacing what was there, and a copy of it is
    /// returned; a failure is returned as it came and the store is left
    /// unchanged.
    pub fn cache_item<E>(&mut self, identifier: String, loaded: Result<Expiring<V>, E>) -> (r: Result<
        Expiring<V>,
        E,
    >)
        requires
            old(self).wf(),
        ensures
            final(self).wf(),
            final(self)@ == after_load(old(self)@, identifier@, loaded),
            match loaded {
                Ok(item) => r matches Ok(c) && copy_of(item, c),
                Err(e) => r == Err::<Expiring<V>, E>(e),
            },
            final(self).loader() == old(self).loader(),
            final(self).key_mapper() == old(self).key_mapper(),
    {
        match loaded {
            Ok(item) => {
                let copy = item.clone();
                self.map.insert(identifier, item);
                Ok(copy)
            },
            Err(e) => Err(e),
        }
    }
}

impl<K, V, F, G: Fn(&K) -> String> Cache<K, V, F, G> {
    /// The identifier under which entries for `key` are stored.
    pub fn identifier(&self, key: &K) -> (r: String)
        requires
            call_requires(self.key_mapper(), (key,)),
        ensures
            call_ensures(self.key_mapper(), (key,), r),
    {
        (self.get_key_for_map)(key)
    }
}

impl<K, V: Clone, F, G: Fn(&K) -> String> Cache<K, V, F, G> {
    /// Decides a read of `key` at the instant `now`: a copy of the entry
    /// under the key's identifier while it is live, else that identifier to
    /// load under.
    pub fn lookup_at(&self, key: &K, now: u128) -> (r: Lookup<V>)
        requires
            self.wf(),
            call_requires(self.key_mapper(), (key,)),
        ensures
            exists|id: String|
                call_ensures(self.key_mapper(), (key,), id) && match #[trigger] live_entry(
                    self@,
                    id@,
                    now as int,
                ) {
                    Some(e) => r matches Lookup::Hit(c) && copy_of(e, c),
                    None => r == Lookup::<V>::Miss(id),
                },
    {
        let identifier = self.identifier(key);
        match self.get_non_expired_at(&identifier, now) {
            Some(item) => Lookup::Hit(item),
            None => Lookup::Miss(identifier),
        }
    }

    /// Decides a read of `key` now, as `lookup_at` does at the current
    /// instant.
    pub fn lookup(&self, key: &K) -> (r: Lookup<V>)
        requires
            self.wf(),
            call_requires(self.key_mapper(), (key,)),
        ensures
            exists|t: int, id: String|
                0 <= t <= u128::MAX && call_ensures(self.key_mapper(), (key,), id) && match #[trigger] live_entry(
                    self@,
                    id@,
                    t,
                ) {
                    Some(e) => r matches Lookup::Hit(c) && copy_of(e, c),
                    None => r == Lookup::<V>::Miss(id),
                },
    {
        let t = crate::expiring::clock_now();
        self.lookup_at(key, t)
    }

    /// Removes the entry for `key`, if any.
    pub fn delete(&mut self, key: K)
        requires
            old(self).wf(),
            call_requires(old(self).key_mapper(), (&key,)),
        ensures
            final(self).wf(),
            exists|id: String|
                call_ensures(old(self).key_mapper(), (&key,), id) && final(self)@ == old(
                    self,
                )@.remove(id@),
            final(self).loader() == old(self).loader(),
            final(self).key_mapper() == old(self).key_mapper(),
    {
        let identifier = self.identifier(&key);
        self.delete_identifier(&identifier);
    }
}

} // verus!
