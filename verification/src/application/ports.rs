use vstd::prelude::*;

use crate::domain::{AggregateRoot, DomainError};

pub mod auth;

verus! {

/// The read side of an aggregate's persistence port.
///
/// Each adapter says, through the two relations, which results it may give:
/// `found` relates an id to the outcome of `find_by_id`, `listed` relates a
/// page request to the outcome of `find_all_paginated`. The default relations
/// claim nothing; an adapter verified in this crate (`InMemoryRepository`)
/// defines its own.
pub trait ReadRepository<T: AggregateRoot> {
    closed spec fn found(&self, id: T::Id, outcome: Result<Option<T>, DomainError>) -> bool {
        true
    }

    closed spec fn listed(
        &self,
        limit: i64,
        offset: i64,
        outcome: Result<Vec<T>, DomainError>,
    ) -> bool {
        true
    }

    fn find_by_id(&self, id: &T::Id) -> (outcome: Result<Option<T>, DomainError>)
        ensures
            self.found(*id, outcome),
    ;

    fn find_all_paginated(&self, limit: i64, offset: i64) -> (outcome: Result<
        Vec<T>,
        DomainError,
    >)
        ensures
            self.listed(limit, offset, outcome),
    ;
}

/// The write side of an aggregate's persistence port.
///
/// `create` takes a new entity, which an adapter may have to give an id, and
/// returns it as persisted; `update` takes the entity WITH its id and persists
/// its current state. Each relation ties the store before the call, the store
/// after it, the argument and the outcome. The default relations claim
/// nothing; an adapter verified in this crate defines its own.
pub trait WriteRepository<T: AggregateRoot>: Sized {
    closed spec fn created(before: Self, after: Self, entity: T, outcome: Result<T, DomainError>) -> bool {
        true
    }

    closed spec fn updated(before: Self, after: Self, entity: T, outcome: Result<T, DomainError>) -> bool {
        true
    }

    closed spec fn deleted(
        before: Self,
        after: Self,
        id: T::Id,
        outcome: Result<(), DomainError>,
    ) -> bool {
        true
    }

    fn create(&mut self, entity: T) -> (outcome: Result<T, DomainError>)
        ensures
            Self::created(*old(self), *final(self), entity, outcome),
    ;

    fn update(&mut self, entity: T) -> (outcome: Result<T, DomainError>)
        ensures
            Self::updated(*old(self), *final(self), entity, outcome),
    ;

    fn delete(&mut self, id: &T::Id) -> (outcome: Result<(), DomainError>)
        ensures
            Self::deleted(*old(self), *final(self), *id, outcome),
    ;
}

} // verus!
