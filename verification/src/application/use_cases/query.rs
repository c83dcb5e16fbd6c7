use core::marker::PhantomData;
use vstd::prelude::*;

use crate::application::ports::ReadRepository;
use crate::domain::{AggregateRoot, DomainError};

verus! {

/// The page number a listing actually uses: pages start at 1, and anything
/// below is read as the first page.
pub open spec fn effective_page(page: i64) -> int {
    if page < 1 {
        1
    } else {
        page as int
    }
}

/// The offset of the first entity of page `page` when pages hold `limit`
/// entities.
pub open spec fn page_offset(page: i64, limit: i64) -> int {
    (effective_page(page) - 1) * limit
}

/// The answer to a lookup by id, given what the repository answered:
/// a repository error is passed on, a missing entity becomes `NotFound`
/// naming the kind of entity.
pub open spec fn lookup_answer<T: AggregateRoot>(found: Result<Option<T>, DomainError>, answer: Result<T, DomainError>) -> bool {
    match found {
        Err(e) => answer == Err::<T, DomainError>(e),
        Ok(Some(entity)) => answer == Ok::<T, DomainError>(entity),
        Ok(None) => answer matches Err(DomainError::NotFound { entity }) && entity@ == T::spec_entity_name(),
    }
}

/// Turns what a repository answered for a lookup by id into the answer of
/// the query: the entity, the repository's own error, or `NotFound` naming
/// `entity_name`.
pub fn require_found<T>(found: Result<Option<T>, DomainError>, entity_name: &'static str) -> (answer: Result<T, DomainError>)
    ensures
        match found {
            Err(e) => answer == Err::<T, DomainError>(e),
            Ok(Some(entity)) => answer == Ok::<T, DomainError>(entity),
            Ok(None) => answer == Err::<T, DomainError>(DomainError::NotFound { entity: entity_name }),
        },
{
    match found {
        Err(e) => Err(e),
        Ok(Some(entity)) => Ok(entity),
        Ok(None) => Err(DomainError::NotFound { entity: entity_name }),
    }
}

/// Read-only use case over an aggregate's repository.
pub struct QueryUseCase<'a, T: AggregateRoot, R: ReadRepository<T>> {
    pub repository: &'a R,
    pub marker: PhantomData<T>,
}

impl<'a, T: AggregateRoot, R: ReadRepository<T>> QueryUseCase<'a, T, R> {
    pub fn new(repository: &'a R) -> (query: Self)
        ensures
            *query.repository == *repository,
    {
        QueryUseCase { repository, marker: PhantomData }
    }

    /// Looks an entity up by id; its absence is an error, `NotFound`.
    pub fn find_by_id(&self, id: T::Id) -> (answer: Result<T, DomainError>)
        ensures
            exists|found: Result<Option<T>, DomainError>|
                #![trigger self.repository.found(id, found)]
                self.repository.found(id, found) && lookup_answer(found, answer),
    {
        let found = self.repository.find_by_id(&id);
        let answer = require_found(found, T::entity_name());
        assert(self.repository.found(id, found));
        answer
    }

    /// Lists page `page` (pages start at 1; anything lower means the first)
    /// of `limit` entities.
    pub fn list(&self, page: i64, limit: i64) -> (listing: Result<Vec<T>, DomainError>)
        requires
            i64::MIN <= page_offset(page, limit) <= i64::MAX,
        ensures
            self.repository.listed(limit, page_offset(page, limit) as i64, listing),
    {
        let page = if page < 1 {
            1
        } else {
            page
        };
        let offset = (page - 1) * limit;
        self.repository.find_all_paginated(limit, offset)
    }
}

/// Any page number below 1 lists the first page.
pub proof fn lemma_pages_below_one_are_the_first(page: i64, limit: i64)
    requires
        page < 1,
    ensures
        page_offset(page, limit) == page_offset(1, limit),
        page_offset(page, limit) == 0,
{
    assert(0 * (limit as int) == 0) by (nonlinear_arith);
}

/// Page `page + 1` starts where page `page` ends.
pub proof fn lemma_next_page_starts_where_page_ends(page: i64, limit: i64)
    requires
        1 <= page < i64::MAX,
    ensures
        page_offset((page + 1) as i64, limit) == page_offset(page, limit) + limit,
{
    assert(page * limit == (page - 1) * limit + limit) by (nonlinear_arith);
}

} // verus!
