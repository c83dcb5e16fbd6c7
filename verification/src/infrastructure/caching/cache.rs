use core::marker::PhantomData;
use std::time::Duration;
use vstd::prelude::*;

use crate::application::ports::ReadRepository;
use crate::domain::{AggregateRoot, DomainError};

verus! {

/// Minimal cache contract: the kernel does not pick Redis, an in-memory LRU
/// or anything concrete.
///
/// `gives` relates a key to what `get` may answer for it; `keeps` is what a
/// cache promises once `set` was called with a key, a value and a time to
/// live. What a cache answers depends on time and eviction; the default
/// relations claim nothing.
pub trait Cache<K, V> {
    closed spec fn gives(&self, key: K, outcome: Option<V>) -> bool {
        true
    }

    closed spec fn keeps(&self, key: K, value: V, ttl: Duration) -> bool {
        true
    }

    fn get(&self, key: &K) -> (outcome: Option<V>)
        ensures
            self.gives(*key, outcome),
    ;

    fn set(&self, key: K, value: V, ttl: Duration)
        ensures
            self.keeps(key, value, ttl),
    ;

    fn invalidate(&self, key: &K);
}

/// What to put in the cache after a miss: a found entity is cached (as a
/// clone) under (a clone of) its id with the given time to live; an absence
/// or an error is not cached.
pub fn cache_entry<K: Clone, T: Clone>(id: &K, found: &Result<Option<T>, DomainError>, ttl: Duration) -> (entry: Option<(K, T, Duration)>)
    ensures
        match *found {
            Ok(Some(entity)) => entry matches Some(e) && cloned(*id, e.0) && cloned(entity, e.1) && e.2 == ttl,
            _ => entry is None,
        },
{
    match found {
        Ok(Some(entity)) => Some((id.clone(), entity.clone(), ttl)),
        _ => None,
    }
}

/// Decorator over a `ReadRepository`: the application layer never finds out
/// that it exists and keeps using the same `QueryUseCase`.
pub struct CachedReadRepository<T: AggregateRoot + Clone, R: ReadRepository<T>, C: Cache<T::Id, T>> {
    inner: R,
    cache: C,
    ttl: Duration,
    marker: PhantomData<T>,
}

impl<T: AggregateRoot + Clone, R: ReadRepository<T>, C: Cache<T::Id, T>> CachedReadRepository<T, R, C> {
    /// The decorated repository.
    pub closed spec fn inner_repository(&self) -> R {
        self.inner
    }

    /// The cache in front of it.
    pub closed spec fn cache_of(&self) -> C {
        self.cache
    }

    /// How long the entries it caches live.
    pub closed spec fn time_to_live(&self) -> Duration {
        self.ttl
    }

    pub fn new(inner: R, cache: C, ttl: Duration) -> (cached: Self)
        ensures
            cached.inner_repository() == inner,
            cached.cache_of() == cache,
            cached.time_to_live() == ttl,
    {
        CachedReadRepository { inner, cache, ttl, marker: PhantomData }
    }
}

impl<T: AggregateRoot + Clone, R: ReadRepository<T>, C: Cache<T::Id, T>> ReadRepository<T> for CachedReadRepository<T, R, C> {
    /// A cache hit answers with what the cache gave for `id`. On a miss the
    /// answer is the decorated repository's, and a found entity is then
    /// handed to the cache (as a clone) under (a clone of) `id` with the
    /// decorator's time to live.
    open spec fn found(&self, id: T::Id, outcome: Result<Option<T>, DomainError>) -> bool {
        ||| exists|hit: T|
            #![trigger self.cache_of().gives(id, Some(hit))]
            self.cache_of().gives(id, Some(hit)) && outcome == Ok::<Option<T>, DomainError>(Some(hit))
        ||| {
            &&& self.cache_of().gives(id, None)
            &&& self.inner_repository().found(id, outcome)
            &&& outcome matches Ok(Some(entity)) ==> exists|key: T::Id, copy: T|
                #![trigger self.cache_of().keeps(key, copy, self.time_to_live())]
                cloned(id, key) && cloned(entity, copy) && self.cache_of().keeps(
                    key,
                    copy,
                    self.time_to_live(),
                )
        }
    }

    /// Listings are not cached: the answer is the decorated repository's.
    open spec fn listed(&self, limit: i64, offset: i64, outcome: Result<Vec<T>, DomainError>) -> bool {
        self.inner_repository().listed(limit, offset, outcome)
    }

    fn find_by_id(&self, id: &T::Id) -> (outcome: Result<Option<T>, DomainError>) {
        let hit = self.cache.get(id);
        assert(self.cache_of().gives(*id, hit));
        if let Some(hit) = hit {
            return Ok(Some(hit));
        }
        let result = self.inner.find_by_id(id);
        if let Some((key, value, ttl)) = cache_entry(id, &result, self.ttl) {
            self.cache.set(key, value, ttl);
            assert(self.cache_of().keeps(key, value, self.time_to_live()));
        }
        result
    }

    fn find_all_paginated(&self, limit: i64, offset: i64) -> (outcome: Result<Vec<T>, DomainError>) {
        self.inner.find_all_paginated(limit, offset)
    }
}

/// A cache is coherent with a repository when everything it gives for a key
/// is an answer the repository may give for that key.
pub open spec fn coherent<T: AggregateRoot, R: ReadRepository<T>, C: Cache<T::Id, T>>(cache: C, inner: R) -> bool {
    forall|key: T::Id, hit: T|
        #[trigger] cache.gives(key, Some(hit)) ==> inner.found(key, Ok::<Option<T>, DomainError>(Some(hit)))
}

/// In front of a coherent cache, the decorator answers what the decorated
/// repository may answer: callers cannot tell one from the other.
pub proof fn lemma_coherent_cache_is_transparent<T: AggregateRoot + Clone, R: ReadRepository<T>, C: Cache<T::Id, T>>(
    cached: CachedReadRepository<T, R, C>,
    id: T::Id,
    outcome: Result<Option<T>, DomainError>,
)
    requires
        coherent(cached.cache_of(), cached.inner_repository()),
        cached.found(id, outcome),
    ensures
        cached.inner_repository().found(id, outcome),
{
}

} // verus!
