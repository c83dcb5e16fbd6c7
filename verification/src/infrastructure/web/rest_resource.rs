use core::marker::PhantomData;
use std::hash::Hash;
use vstd::prelude::*;

use crate::application::ports::{ReadRepository, WriteRepository};
use crate::application::use_cases::create::{creation_outcome, CreateUseCase, CreationPolicy};
use crate::application::use_cases::query::{lookup_answer, page_offset, QueryUseCase};
use crate::domain::{AggregateRoot, DomainError};
use crate::infrastructure::in_memory_repository::{keyed, InMemoryRepository};
use vstd::std_specs::cmp::PartialEqSpec;

verus! {

/// Query parameters of a listing.
pub struct PageParams {
    pub page: i64,
    pub limit: i64,
}

/// The page a listing shows when none is asked for.
pub fn default_page() -> (page: i64)
    ensures
        page == 1,
{
    1
}

/// The number of entities a page holds when none is asked for.
pub fn default_limit() -> (limit: i64)
    ensures
        limit == 20,
{
    20
}

/// What reading the id of a URL path gives, given what the id type's
/// `FromStr` made of the text: the id, or a `Validation` error that quotes
/// the text.
pub open spec fn id_reading<I>(raw: Seq<char>, parsed: Option<I>, outcome: Result<I, DomainError>) -> bool {
    match parsed {
        Some(id) => outcome == Ok::<I, DomainError>(id),
        None => outcome matches Err(DomainError::Validation(message)) && message@ == "invalid id: "@
            + raw,
    }
}

/// Reads the id of a URL path, given what the id type's `FromStr` made of
/// the text (`None` where it refused it).
pub fn parse_id<I>(raw: &str, parsed: Option<I>) -> (outcome: Result<I, DomainError>)
    ensures
        id_reading(raw@, parsed, outcome),
{
    match parsed {
        Some(id) => Ok(id),
        None => Err(DomainError::Validation(String::from_str("invalid id: ").concat(raw))),
    }
}

/// Whether `outcome` is a `Validation` error with text `text`.
pub open spec fn validation_error<A>(outcome: Result<A, DomainError>, text: Seq<char>) -> bool {
    outcome matches Err(DomainError::Validation(message)) && message@ == text
}

/// What an update through the REST resource gives: the URL id is the source of
/// truth, so a body without an id, or with another id, is refused (and the
/// repository is left as it was); otherwise the repository updates it.
/// `same` is whether the body's id equals the URL's by the id type's `==`.
pub open spec fn update_outcome<T: AggregateRoot, R: WriteRepository<T>>(
    before: R,
    after: R,
    entity: T,
    same: bool,
    outcome: Result<T, DomainError>,
) -> bool {
    match entity.spec_id() {
        None => after == before && validation_error(outcome, "body must include the id when updating"@),
        Some(_) => if same {
            R::updated(before, after, entity, outcome)
        } else {
            after == before && validation_error(outcome, "body id does not match the URL id"@)
        },
    }
}

/// Whether the id an entity carries equals `id` by the id type's `==` (as
/// vstd specifies `==` for the type).
pub open spec fn carries_id<T: AggregateRoot>(entity: T, id: T::Id) -> bool {
    entity.spec_id() matches Some(own) && own.eq_spec(&id)
}

/// Wires the query and creation use cases into the standard CRUD operations
/// of a resource. `delete` and `update` are plain writes (no policy or
/// business rule, unlike `create`), so they go to the repository directly.
pub struct RestResource<T: AggregateRoot, R: ReadRepository<T> + WriteRepository<T>, P: CreationPolicy<T, T>> {
    repository: R,
    policy: P,
    marker: PhantomData<T>,
}

impl<T: AggregateRoot, R: ReadRepository<T> + WriteRepository<T>, P: CreationPolicy<T, T>> RestResource<T, R, P> {
    /// The repository behind the resource.
    pub closed spec fn store(&self) -> R {
        self.repository
    }

    /// The creation policy of the resource.
    pub closed spec fn rules(&self) -> P {
        self.policy
    }

    pub fn new(repository: R, policy: P) -> (resource: Self)
        ensures
            resource.store() == repository,
            resource.rules() == policy,
    {
        RestResource { repository, policy, marker: PhantomData }
    }

    /// The repository behind the resource, for reading.
    pub fn repository(&self) -> (repository: &R)
        ensures
            *repository == self.store(),
    {
        &self.repository
    }

    /// GET /: a page of the listing.
    pub fn list(&self, page: i64, limit: i64) -> (listing: Result<Vec<T>, DomainError>)
        requires
            i64::MIN <= page_offset(page, limit) <= i64::MAX,
        ensures
            self.store().listed(limit, page_offset(page, limit) as i64, listing),
    {
        let query = QueryUseCase::new(&self.repository);
        query.list(page, limit)
    }

    /// GET /:id
    pub fn get_h(&self, id: T::Id) -> (answer: Result<T, DomainError>)
        ensures
            exists|found: Result<Option<T>, DomainError>|
                #![trigger self.store().found(id, found)]
                self.store().found(id, found) && lookup_answer(found, answer),
    {
        let query = QueryUseCase::new(&self.repository);
        let answer = query.find_by_id(id);
        proof {
            let found = choose|found: Result<Option<T>, DomainError>|
                #![trigger query.repository.found(id, found)]
                query.repository.found(id, found) && lookup_answer(found, answer);
            assert(self.store().found(id, found));
        }
        answer
    }

    /// POST /: creates through the creation use case.
    pub fn create_h(&mut self, input: T) -> (outcome: Result<T, DomainError>)
        ensures
            creation_outcome(old(self).rules(), old(self).store(), final(self).store(), input, outcome),
            final(self).rules() == old(self).rules(),
    {
        let mut create = CreateUseCase::new(&mut self.repository, &self.policy);
        create.execute(input)
    }

    /// PUT /:id: the URL id is the source of truth. A body that carries
    /// another id, or none, is refused instead of letting the body silently
    /// override it.
    pub fn update_h(&mut self, path_id: T::Id, entity: T) -> (outcome: Result<T, DomainError>)
        ensures
            <T::Id as PartialEqSpec>::obeys_eq_spec() ==> update_outcome(
                old(self).store(),
                final(self).store(),
                entity,
                carries_id(entity, path_id),
                outcome,
            ),
            update_outcome(old(self).store(), final(self).store(), entity, true, outcome)
                || update_outcome(old(self).store(), final(self).store(), entity, false, outcome),
            final(self).rules() == old(self).rules(),
    {
        match entity.id() {
            Some(body_id) => {
                if body_id == path_id {
                } else {
                    return Err(
                        DomainError::Validation(String::from_str("body id does not match the URL id")),
                    );
                }
            },
            None => {
                return Err(
                    DomainError::Validation(String::from_str("body must include the id when updating")),
                );
            },
        }
        self.repository.update(entity)
    }

    /// DELETE /:id
    pub fn delete_h(&mut self, id: T::Id) -> (outcome: Result<(), DomainError>)
        ensures
            R::deleted(old(self).store(), final(self).store(), id, outcome),
            final(self).rules() == old(self).rules(),
    {
        self.repository.delete(&id)
    }
}

/// A PUT whose body carries no id, or an id other than the URL's, is refused
/// with a `Validation` error and leaves the repository as it was.
pub proof fn lemma_refused_put_changes_nothing<T: AggregateRoot, R: WriteRepository<T>>(
    before: R,
    after: R,
    entity: T,
    same: bool,
    outcome: Result<T, DomainError>,
)
    requires
        update_outcome(before, after, entity, same, outcome),
        entity.spec_id() is None || !same,
    ensures
        after == before,
        outcome matches Err(DomainError::Validation(_)),
{
}

/// After a PUT that succeeds on an in-memory repository with the body's id
/// equal to the URL's, a GET of that id finds a clone of what was stored,
/// which is a clone of the body.
pub proof fn lemma_put_then_get<T: AggregateRoot + Clone>(
    before: InMemoryRepository<T>,
    after: InMemoryRepository<T>,
    path_id: T::Id,
    entity: T,
    same: bool,
    updated: T,
    found: Result<Option<T>, DomainError>,
)
    where T::Id: Hash,
    requires
        keyed::<T>(),
        entity.spec_id() == Some(path_id),
        update_outcome(before, after, entity, same, Ok(updated)),
        after.found(path_id, found),
    ensures
        updated == entity,
        found matches Ok(Some(copy)) && cloned(after@[path_id], copy),
        cloned(entity, after@[path_id]),
{
}

} // verus!
