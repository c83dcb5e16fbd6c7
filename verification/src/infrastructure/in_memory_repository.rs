use std::collections::HashMap;
use std::hash::Hash;
use vstd::prelude::*;
use vstd::std_specs::hash::{into_iter_values, obeys_key_model, spec_values_iter};
use vstd::std_specs::iter::IteratorSpec;

use crate::application::ports::{ReadRepository, WriteRepository};
use crate::application::use_cases::create::{creation_outcome, CreationPolicy};
use crate::domain::{AggregateRoot, DomainError};

verus! {

broadcast use vstd::std_specs::hash::group_hash_axioms;

/// Whether the ids of `T` behave as hash-map keys: equal ids hash alike, and
/// hashing and comparing them is deterministic. vstd's model of `HashMap`
/// holds of such keys only (all primitive types are such keys).
pub open spec fn keyed<T: AggregateRoot>() -> bool {
    obeys_key_model::<T::Id>()
}

/// The part of `items` that a page starting at `offset` and holding at most
/// `limit` items covers; a negative offset or limit counts as 0.
pub open spec fn page_of<A>(items: Seq<A>, offset: int, limit: int) -> Seq<A> {
    let start = if offset < 0 {
        0
    } else if offset > items.len() {
        items.len() as int
    } else {
        offset
    };
    let count = if limit < 0 {
        0
    } else {
        limit
    };
    let end = if start + count > items.len() {
        items.len() as int
    } else {
        start + count
    };
    items.subrange(start, end)
}

/// Each item of `copies` is a clone of the item of `sources` at its position.
pub open spec fn clones_of<T: Clone>(sources: Seq<T>, copies: Seq<T>) -> bool {
    &&& copies.len() == sources.len()
    &&& forall|k: int| 0 <= k < copies.len() ==> cloned(sources[k], #[trigger] copies[k])
}

/// The error that `create` and `update` give for an entity without an id.
pub open spec fn missing_id_error<A>(outcome: Result<A, DomainError>, text: Seq<char>) -> bool {
    outcome matches Err(DomainError::Infrastructure(message)) && message@ == text
}

pub open spec fn create_without_id_text() -> Seq<char> {
    "entidad sin id en create() — el dominio debe asignarlo antes"@
}

pub open spec fn update_without_id_text() -> Seq<char> {
    "entidad sin id en update()"@
}

/// Advances an iterator by one item (std's `Iterator::next`, as vstd
/// specifies it for iterators that obey its laws).
fn next_item<I: Iterator>(iter: &mut I) -> (item: Option<I::Item>)
    ensures
        (*final(iter)).obeys_prophetic_iter_laws() == (*old(iter)).obeys_prophetic_iter_laws(),
        (*final(iter)).obeys_prophetic_iter_laws() ==> if (*old(iter)).remaining().len() > 0 {
            &&& (*final(iter)).remaining() == (*old(iter)).remaining().drop_first()
            &&& item == Some((*old(iter)).remaining()[0])
        } else {
            item is None
        },
{
    iter.next()
}

/// FOR TESTS ONLY: a repository held in memory, a hash map from ids to
/// entities. Entities are kept under the id they carried when stored; the
/// listing walks the map in its own (unspecified but fixed) order.
pub struct InMemoryRepository<T: AggregateRoot + Clone> where T::Id: Hash {
    store: HashMap<T::Id, T>,
}

impl<T: AggregateRoot + Clone> View for InMemoryRepository<T> where T::Id: Hash {
    type V = Map<T::Id, T>;

    /// The entities held, by id.
    closed spec fn view(&self) -> Map<T::Id, T> {
        self.store@
    }
}

impl<T: AggregateRoot + Clone> Default for InMemoryRepository<T> where T::Id: Hash {
    fn default() -> (repository: Self)
        ensures
            repository@ == Map::<T::Id, T>::empty(),
    {
        Self::new()
    }
}

impl<T: AggregateRoot + Clone> InMemoryRepository<T> where T::Id: Hash {
    /// The entities held, in the order a listing walks them.
    pub closed spec fn listing(&self) -> Seq<T> {
        into_iter_values(spec_values_iter(&self.store))
    }

    pub fn new() -> (repository: Self)
        ensures
            repository@ == Map::<T::Id, T>::empty(),
    {
        InMemoryRepository { store: HashMap::new() }
    }
}

impl<T: AggregateRoot + Clone> ReadRepository<T> for InMemoryRepository<T> where T::Id: Hash {
    /// The entity stored under `id` comes back as a clone; an id with nothing
    /// stored under it gives `Ok(None)`.
    open spec fn found(&self, id: T::Id, outcome: Result<Option<T>, DomainError>) -> bool {
        &&& outcome is Ok
        &&& keyed::<T>() ==> if self@.contains_key(id) {
            outcome matches Ok(Some(copy)) && cloned(self@[id], copy)
        } else {
            outcome == Ok::<Option<T>, DomainError>(None)
        }
    }

    /// The page of the listing that starts at `offset` and holds at most
    /// `limit` entities comes back as clones; it never fails.
    open spec fn listed(&self, limit: i64, offset: i64, outcome: Result<Vec<T>, DomainError>) -> bool {
        &&& outcome is Ok
        &&& keyed::<T>() ==> {
            &&& self.listing().len() == self@.dom().len()
            &&& self.listing().to_set() == self@.values()
            &&& outcome matches Ok(page) && clones_of(page_of(self.listing(), offset as int, limit as int), page@)
        }
    }

    fn find_by_id(&self, id: &T::Id) -> (outcome: Result<Option<T>, DomainError>) {
        match self.store.get(id) {
            Some(entity) => Ok(Some(entity.clone())),
            None => Ok(None),
        }
    }

    fn find_all_paginated(&self, limit: i64, offset: i64) -> (outcome: Result<Vec<T>, DomainError>) {
        let len = self.store.len();
        let start: usize = if offset <= 0 {
            0
        } else if offset as u64 >= len as u64 {
            len
        } else {
            offset as usize
        };
        let end: usize = if limit <= 0 {
            start
        } else if limit as u64 >= (len - start) as u64 {
            len
        } else {
            start + limit as usize
        };
        let ghost items = self.listing();
        let mut values = self.store.values();
        proof {
            if keyed::<T>() {
                assert(IteratorSpec::remaining(&values).unref() == items);
                assert(items.to_set() == self@.values());
            }
        }
        let mut page: Vec<T> = Vec::new();
        let mut i: usize = 0;
        while i < end
            invariant
                i <= end,
                start <= end <= len,
                items == self.listing(),
                keyed::<T>() ==> {
                    &&& len == items.len()
                    &&& IteratorSpec::remaining(&values).unref() == items.skip(i as int)
                    &&& values.obeys_prophetic_iter_laws()
                    &&& page@.len() == if i < start { 0 } else { i - start }
                    &&& forall|k: int|
                        0 <= k < page@.len() ==> cloned(items[start + k], #[trigger] page@[k])
                },
            decreases end - i,
        {
            let ghost before = IteratorSpec::remaining(&values);
            proof {
                if keyed::<T>() {
                    assert(before.unref()[0] == items[i as int]);
                    assert(before.len() > 0);
                }
            }
            match next_item(&mut values) {
                Some(entity) => {
                    if i >= start {
                        let copy = entity.clone();
                        proof {
                            if keyed::<T>() {
                                assert(*entity == items[i as int]);
                                assert(cloned(items[start + (i - start)], copy));
                            }
                        }
                        page.push(copy);
                    }
                },
                None => {},
            }
            proof {
                if keyed::<T>() {
                    assert(items.skip(i as int).drop_first() =~= items.skip(i + 1));
                    assert(IteratorSpec::remaining(&values).unref() =~= before.unref().drop_first());
                }
            }
            i = i + 1;
        }
        proof {
            if keyed::<T>() {
                assert(page_of(items, offset as int, limit as int) =~= items.subrange(start as int, end as int));
            }
        }
        Ok(page)
    }
}

impl<T: AggregateRoot + Clone> WriteRepository<T> for InMemoryRepository<T> where T::Id: Hash {
    /// An entity with an id is stored under it (as a clone, replacing what was
    /// there) and handed back; one without an id is refused with an
    /// `Infrastructure` error and nothing changes: the domain assigns ids
    /// before creating (in its creation policy), as with a database adapter.
    open spec fn created(before: Self, after: Self, entity: T, outcome: Result<T, DomainError>) -> bool {
        match entity.spec_id() {
            None => after@ == before@ && missing_id_error(outcome, create_without_id_text()),
            Some(id) => {
                &&& outcome == Ok::<T, DomainError>(entity)
                &&& keyed::<T>() ==> {
                    &&& after@.contains_key(id)
                    &&& cloned(entity, after@[id])
                    &&& after@ == before@.insert(id, after@[id])
                }
            },
        }
    }

    /// As `created`, with the error text of `update`: the entity is stored
    /// under its id whether or not something was stored there before.
    open spec fn updated(before: Self, after: Self, entity: T, outcome: Result<T, DomainError>) -> bool {
        match entity.spec_id() {
            None => after@ == before@ && missing_id_error(outcome, update_without_id_text()),
            Some(id) => {
                &&& outcome == Ok::<T, DomainError>(entity)
                &&& keyed::<T>() ==> {
                    &&& after@.contains_key(id)
                    &&& cloned(entity, after@[id])
                    &&& after@ == before@.insert(id, after@[id])
                }
            },
        }
    }

    /// Whatever was stored under `id` is gone; deleting an absent id is no
    /// error.
    open spec fn deleted(before: Self, after: Self, id: T::Id, outcome: Result<(), DomainError>) -> bool {
        &&& outcome == Ok::<(), DomainError>(())
        &&& keyed::<T>() ==> after@ == before@.remove(id)
    }

    fn create(&mut self, entity: T) -> (outcome: Result<T, DomainError>) {
        match entity.id() {
            None => Err(
                DomainError::Infrastructure(
                    String::from_str("entidad sin id en create() — el dominio debe asignarlo antes"),
                ),
            ),
            Some(id) => {
                let kept = entity.clone();
                self.store.insert(id, kept);
                Ok(entity)
            },
        }
    }

    fn update(&mut self, entity: T) -> (outcome: Result<T, DomainError>) {
        match entity.id() {
            None => Err(DomainError::Infrastructure(String::from_str("entidad sin id en update()"))),
            Some(id) => {
                let kept = entity.clone();
                self.store.insert(id, kept);
                Ok(entity)
            },
        }
    }

    fn delete(&mut self, id: &T::Id) -> (outcome: Result<(), DomainError>) {
        self.store.remove(id);
        Ok(())
    }
}

/// A lookup right after a successful creation finds the entity: what comes
/// back is a clone of what was stored, which is a clone of what was created.
pub proof fn lemma_find_after_create<T: AggregateRoot + Clone>(
    before: InMemoryRepository<T>,
    after: InMemoryRepository<T>,
    entity: T,
    outcome: Result<T, DomainError>,
    found: Result<Option<T>, DomainError>,
)
    where T::Id: Hash,
    requires
        keyed::<T>(),
        InMemoryRepository::<T>::created(before, after, entity, outcome),
        entity.spec_id() is Some,
        after.found(entity.spec_id()->0, found),
    ensures
        outcome == Ok::<T, DomainError>(entity),
        after@.contains_key(entity.spec_id()->0),
        cloned(entity, after@[entity.spec_id()->0]),
        found matches Ok(Some(copy)) && cloned(after@[entity.spec_id()->0], copy),
{
}

/// After a deletion, a lookup of the deleted id finds nothing.
pub proof fn lemma_find_after_delete<T: AggregateRoot + Clone>(
    before: InMemoryRepository<T>,
    after: InMemoryRepository<T>,
    id: T::Id,
    outcome: Result<(), DomainError>,
    found: Result<Option<T>, DomainError>,
)
    where T::Id: Hash,
    requires
        keyed::<T>(),
        InMemoryRepository::<T>::deleted(before, after, id, outcome),
        after.found(id, found),
    ensures
        !after@.contains_key(id),
        found == Ok::<Option<T>, DomainError>(None),
{
}

/// Creating an entity under an id that was not stored, then deleting that
/// id, gives back the repository as it was.
pub proof fn lemma_create_then_delete_restores<T: AggregateRoot + Clone>(
    start: InMemoryRepository<T>,
    middle: InMemoryRepository<T>,
    end: InMemoryRepository<T>,
    entity: T,
    created: Result<T, DomainError>,
    deleted: Result<(), DomainError>,
)
    where T::Id: Hash,
    requires
        keyed::<T>(),
        entity.spec_id() is Some,
        !start@.contains_key(entity.spec_id()->0),
        InMemoryRepository::<T>::created(start, middle, entity, created),
        InMemoryRepository::<T>::deleted(middle, end, entity.spec_id()->0, deleted),
    ensures
        end@ == start@,
{
    assert(end@ =~= start@);
}

/// Updating an entity whose id is stored keeps the same ids, and every other
/// id keeps the entity it had.
pub proof fn lemma_update_keeps_other_entities<T: AggregateRoot + Clone>(
    before: InMemoryRepository<T>,
    after: InMemoryRepository<T>,
    entity: T,
    outcome: Result<T, DomainError>,
)
    where T::Id: Hash,
    requires
        keyed::<T>(),
        entity.spec_id() is Some,
        before@.contains_key(entity.spec_id()->0),
        InMemoryRepository::<T>::updated(before, after, entity, outcome),
    ensures
        after@.dom() == before@.dom(),
        forall|k: T::Id| #[trigger] before@.contains_key(k) && k != entity.spec_id()->0 ==> after@[k] == before@[k],
{
    assert(after@.dom() =~= before@.dom());
}

/// Two consecutive pages together are the page that spans both.
pub proof fn lemma_consecutive_pages<A>(items: Seq<A>, offset: int, first: int, second: int)
    requires
        0 <= offset,
        0 <= first,
        0 <= second,
    ensures
        page_of(items, offset, first) + page_of(items, offset + first, second) == page_of(
            items,
            offset,
            first + second,
        ),
{
    assert(page_of(items, offset, first) + page_of(items, offset + first, second) =~= page_of(
        items,
        offset,
        first + second,
    ));
}

/// A page holds `limit` items, or fewer when the listing ends before; an
/// offset at or past the end gives an empty page.
pub proof fn lemma_page_length<A>(items: Seq<A>, offset: int, limit: int)
    requires
        0 <= offset,
        0 <= limit,
    ensures
        page_of(items, offset, limit).len() == if offset >= items.len() {
            0
        } else if offset + limit > items.len() {
            items.len() - offset
        } else {
            limit
        },
{
}

/// A negative offset lists the same page as offset 0: the page starts at the
/// beginning of the listing.
pub proof fn lemma_negative_offset_is_first_page<A>(items: Seq<A>, offset: int, limit: int)
    requires
        offset < 0,
    ensures
        page_of(items, offset, limit) == page_of(items, 0, limit),
{
}

/// A page that starts at `offset` (within the listing) holds the items from
/// position `offset` on, `limit` of them or as many as are left; a negative
/// limit gives an empty page.
pub proof fn lemma_page_is_window<A>(items: Seq<A>, offset: int, limit: int)
    requires
        0 <= offset <= items.len(),
    ensures
        limit <= 0 ==> page_of(items, offset, limit).len() == 0,
        0 <= limit ==> page_of(items, offset, limit) == items.skip(offset).take(
            if limit < items.len() - offset { limit } else { items.len() - offset },
        ),
{
    if 0 <= limit {
        assert(page_of(items, offset, limit) =~= items.skip(offset).take(
            if limit < items.len() - offset { limit } else { items.len() - offset },
        ));
    }
}

/// Whether `a` and `b` are clones of one same item.
pub open spec fn clones_of_one<T: Clone>(a: T, b: T) -> bool {
    exists|item: T| #[trigger] cloned(item, a) && cloned(item, b)
}

/// Listing with a negative offset gives what listing from offset 0 gives:
/// both pages are clones, item by item, of the same first entities.
pub proof fn lemma_listed_negative_offset<T: AggregateRoot + Clone>(
    repository: InMemoryRepository<T>,
    limit: i64,
    offset: i64,
    page: Vec<T>,
    first: Vec<T>,
)
    where T::Id: Hash,
    requires
        keyed::<T>(),
        offset < 0,
        repository.listed(limit, offset, Ok(page)),
        repository.listed(limit, 0, Ok(first)),
    ensures
        page@.len() == first@.len(),
        clones_of(page_of(repository.listing(), 0, limit as int), page@),
        forall|k: int| 0 <= k < page@.len() ==> clones_of_one(#[trigger] page@[k], first@[k]),
{
    let items = repository.listing();
    lemma_negative_offset_is_first_page(items, offset as int, limit as int);
    let expected = page_of(items, 0, limit as int);
    assert forall|k: int| 0 <= k < page@.len() implies clones_of_one(#[trigger] page@[k], first@[k]) by {
        assert(cloned(expected[k], page@[k]) && cloned(expected[k], first@[k]));
    }
}

/// A page of the repository holds `limit` entities, or fewer when the
/// repository holds fewer past `offset`; none at or past the end.
pub proof fn lemma_listed_page_length<T: AggregateRoot + Clone>(
    repository: InMemoryRepository<T>,
    limit: i64,
    offset: i64,
    page: Vec<T>,
)
    where T::Id: Hash,
    requires
        keyed::<T>(),
        0 <= offset,
        0 <= limit,
        repository.listed(limit, offset, Ok(page)),
    ensures
        page@.len() == if offset >= repository@.dom().len() {
            0
        } else if offset + limit > repository@.dom().len() {
            repository@.dom().len() - offset
        } else {
            limit as int
        },
{
    lemma_page_length(repository.listing(), offset as int, limit as int);
}

/// Whether `copy` is a clone of some entity of `contents`.
pub open spec fn clone_of_stored<K, T: Clone>(contents: Map<K, T>, copy: T) -> bool {
    exists|id: K| #[trigger] contents.contains_key(id) && cloned(contents[id], copy)
}

/// A page that starts at the beginning and has room for every entity holds a
/// clone of each entity stored, and nothing else.
pub proof fn lemma_full_page_lists_everything<T: AggregateRoot + Clone>(
    repository: InMemoryRepository<T>,
    limit: i64,
    page: Vec<T>,
)
    where T::Id: Hash,
    requires
        keyed::<T>(),
        limit >= repository@.dom().len(),
        repository.listed(limit, 0, Ok(page)),
    ensures
        page@.len() == repository@.dom().len(),
        forall|id: T::Id| #[trigger] repository@.contains_key(id) ==> exists|k: int|
            0 <= k < page@.len() && cloned(repository@[id], #[trigger] page@[k]),
        forall|k: int| 0 <= k < page@.len() ==> clone_of_stored(repository@, #[trigger] page@[k]),
{
    let items = repository.listing();
    assert(page_of(items, 0, limit as int) =~= items);
    assert forall|id: T::Id| #[trigger] repository@.contains_key(id) implies exists|k: int|
        0 <= k < page@.len() && cloned(repository@[id], #[trigger] page@[k]) by {
        assert(repository@.values().contains(repository@[id]));
        assert(items.to_set().contains(repository@[id]));
        let k = choose|k: int| 0 <= k < items.len() && items[k] == repository@[id];
        assert(cloned(items[k], page@[k]));
    }
    assert forall|k: int| 0 <= k < page@.len() implies clone_of_stored(repository@, #[trigger] page@[k]) by {
        assert(items.to_set().contains(items[k]));
        assert(repository@.values().contains(items[k]));
        let id = choose|id: T::Id| #[trigger] repository@.contains_key(id) && repository@[id] == items[k];
        assert(cloned(items[k], page@[k]));
        assert(repository@.contains_key(id) && cloned(repository@[id], page@[k]));
    }
}

/// Two adjacent pages of the listing, together, are clones of the page that
/// spans both.
pub proof fn lemma_adjacent_pages<T: AggregateRoot + Clone>(
    repository: InMemoryRepository<T>,
    limit: i64,
    offset: i64,
    first: Vec<T>,
    second: Vec<T>,
)
    where T::Id: Hash,
    requires
        keyed::<T>(),
        0 <= offset,
        0 <= limit,
        offset + limit <= i64::MAX,
        repository.listed(limit, offset, Ok(first)),
        repository.listed(limit, (offset + limit) as i64, Ok(second)),
    ensures
        clones_of(page_of(repository.listing(), offset as int, 2 * limit), first@ + second@),
{
    let items = repository.listing();
    lemma_consecutive_pages(items, offset as int, limit as int, limit as int);
    let both = first@ + second@;
    let expected = page_of(items, offset as int, 2 * limit);
    let a = page_of(items, offset as int, limit as int);
    assert forall|k: int| 0 <= k < both.len() implies cloned(expected[k], #[trigger] both[k]) by {
        if k < first@.len() {
            assert(expected[k] == a[k]);
        } else {
            assert(expected[k] == page_of(items, offset + limit, limit as int)[k - first@.len()]);
        }
    }
}

/// A creation that fails, at whichever step, leaves the repository as it was.
pub proof fn lemma_failed_creation_changes_nothing<T: AggregateRoot + Clone, P: CreationPolicy<T, T>>(
    policy: P,
    before: InMemoryRepository<T>,
    after: InMemoryRepository<T>,
    input: T,
    outcome: Result<T, DomainError>,
)
    where T::Id: Hash,
    requires
        creation_outcome(policy, before, after, input, outcome),
        outcome is Err,
    ensures
        after@ == before@,
{
}

/// A creation that succeeds stores the entity that the policy built under its
/// id: a lookup of that id finds a clone of it.
pub proof fn lemma_created_entity_is_found<T: AggregateRoot + Clone, P: CreationPolicy<T, T>>(
    policy: P,
    before: InMemoryRepository<T>,
    after: InMemoryRepository<T>,
    input: T,
    entity: T,
    found: Result<Option<T>, DomainError>,
)
    where T::Id: Hash,
    requires
        keyed::<T>(),
        creation_outcome(policy, before, after, input, Ok(entity)),
        after.found(entity.spec_id()->0, found),
    ensures
        entity.spec_id() is Some,
        cloned(entity, after@[entity.spec_id()->0]),
        found matches Ok(Some(copy)) && cloned(after@[entity.spec_id()->0], copy),
{
}

/// A write to a repository, as a history of writes records it.
pub enum Write<T: AggregateRoot> {
    Create(T),
    Update(T),
    Delete(T::Id),
}

/// Whether `write` is about the entity with id `id`.
pub open spec fn touches<T: AggregateRoot>(write: Write<T>, id: T::Id) -> bool {
    match write {
        Write::Create(entity) => entity.spec_id() == Some(id),
        Write::Update(entity) => entity.spec_id() == Some(id),
        Write::Delete(key) => key == id,
    }
}

/// `after` is `before` once `write` was made, whatever it answered.
pub open spec fn applies<T: AggregateRoot + Clone>(
    before: InMemoryRepository<T>,
    after: InMemoryRepository<T>,
    write: Write<T>,
) -> bool where T::Id: Hash {
    match write {
        Write::Create(entity) => exists|outcome: Result<T, DomainError>|
            #![trigger InMemoryRepository::<T>::created(before, after, entity, outcome)]
            InMemoryRepository::<T>::created(before, after, entity, outcome),
        Write::Update(entity) => exists|outcome: Result<T, DomainError>|
            #![trigger InMemoryRepository::<T>::updated(before, after, entity, outcome)]
            InMemoryRepository::<T>::updated(before, after, entity, outcome),
        Write::Delete(key) => exists|outcome: Result<(), DomainError>|
            #![trigger InMemoryRepository::<T>::deleted(before, after, key, outcome)]
            InMemoryRepository::<T>::deleted(before, after, key, outcome),
    }
}

/// The position in `writes` of the last write about `id`, if any.
pub open spec fn last_touch<T: AggregateRoot>(writes: Seq<Write<T>>, id: T::Id) -> Option<int>
    decreases writes.len(),
{
    if writes.len() == 0 {
        None
    } else if touches(writes.last(), id) {
        Some(writes.len() - 1)
    } else {
        last_touch(writes.drop_last(), id)
    }
}

/// `states` is the history of a repository that started empty and went
/// through `writes`, one state after each.
pub open spec fn history<T: AggregateRoot + Clone>(states: Seq<InMemoryRepository<T>>, writes: Seq<Write<T>>) -> bool where T::Id: Hash {
    &&& states.len() == writes.len() + 1
    &&& states[0]@ == Map::<T::Id, T>::empty()
    &&& forall|i: int| 0 <= i < writes.len() ==> #[trigger] applies(states[i], states[i + 1], writes[i])
}

/// What the last write about `id` left under `id`: a clone of the entity it
/// wrote, or nothing after a deletion or when no write was about `id`.
pub open spec fn left_by<T: AggregateRoot + Clone>(writes: Seq<Write<T>>, id: T::Id, contents: Map<T::Id, T>) -> bool {
    match last_touch(writes, id) {
        Some(j) => match writes[j] {
            Write::Create(entity) => contents.contains_key(id) && cloned(entity, contents[id]),
            Write::Update(entity) => contents.contains_key(id) && cloned(entity, contents[id]),
            Write::Delete(_) => !contents.contains_key(id),
        },
        None => !contents.contains_key(id),
    }
}

/// The last write about `id` lies within the history.
proof fn lemma_last_touch_in_range<T: AggregateRoot>(writes: Seq<Write<T>>, id: T::Id)
    ensures
        last_touch(writes, id) matches Some(j) ==> 0 <= j < writes.len(),
    decreases writes.len(),
{
    if writes.len() > 0 && !touches(writes.last(), id) {
        lemma_last_touch_in_range(writes.drop_last(), id);
    }
}

/// The last write about `id` fixes what is stored under `id`, whatever came
/// after it about other ids.
proof fn lemma_contents_after_writes<T: AggregateRoot + Clone>(
    states: Seq<InMemoryRepository<T>>,
    writes: Seq<Write<T>>,
    id: T::Id,
)
    where T::Id: Hash,
    requires
        keyed::<T>(),
        history(states, writes),
    ensures
        left_by(writes, id, states.last()@),
    decreases writes.len(),
{
    let n = writes.len() as int;
    if n == 0 {
        return;
    }
    let earlier = states.drop_last();
    let prefix = writes.drop_last();
    assert forall|i: int| 0 <= i < prefix.len() implies #[trigger] applies(earlier[i], earlier[i + 1], prefix[i]) by {
        assert(applies(states[i], states[i + 1], writes[i]));
    }
    lemma_contents_after_writes(earlier, prefix, id);
    let before = states[n - 1];
    let after = states[n];
    assert(earlier.last() == before);
    assert(states.last() == after);
    let write = writes[n - 1];
    let last = n - 1;
    assert(applies(states[last], states[last + 1], writes[last]));
    if !touches(write, id) {
        match write {
            Write::Create(entity) => {
                let outcome = choose|outcome: Result<T, DomainError>|
                    #![trigger InMemoryRepository::<T>::created(before, after, entity, outcome)]
                    InMemoryRepository::<T>::created(before, after, entity, outcome);
                assert(after@.contains_key(id) == before@.contains_key(id));
                assert(after@[id] == before@[id]);
            },
            Write::Update(entity) => {
                let outcome = choose|outcome: Result<T, DomainError>|
                    #![trigger InMemoryRepository::<T>::updated(before, after, entity, outcome)]
                    InMemoryRepository::<T>::updated(before, after, entity, outcome);
                assert(after@.contains_key(id) == before@.contains_key(id));
                assert(after@[id] == before@[id]);
            },
            Write::Delete(key) => {
                let outcome = choose|outcome: Result<(), DomainError>|
                    #![trigger InMemoryRepository::<T>::deleted(before, after, key, outcome)]
                    InMemoryRepository::<T>::deleted(before, after, key, outcome);
                assert(after@.contains_key(id) == before@.contains_key(id));
                assert(after@[id] == before@[id]);
            },
        }
        assert(last_touch(writes, id) == last_touch(prefix, id));
        if last_touch(prefix, id) is Some {
            let j = last_touch(prefix, id)->0;
            lemma_last_touch_in_range(prefix, id);
            assert(writes[j] == prefix[j]);
        }
    }
}

/// What a lookup gives after any history of writes on a repository that
/// started empty: a clone of what the last write about the id stored, which
/// is a clone of the entity that write carried; nothing when that write was a
/// deletion or when no write was about the id.
pub proof fn lemma_lookup_after_writes<T: AggregateRoot + Clone>(
    states: Seq<InMemoryRepository<T>>,
    writes: Seq<Write<T>>,
    id: T::Id,
    lookup: Result<Option<T>, DomainError>,
)
    where T::Id: Hash,
    requires
        keyed::<T>(),
        history(states, writes),
        states.last().found(id, lookup),
    ensures
        left_by(writes, id, states.last()@),
        states.last()@.contains_key(id) ==> (lookup matches Ok(Some(copy)) && cloned(
            states.last()@[id],
            copy,
        )),
        !states.last()@.contains_key(id) ==> lookup == Ok::<Option<T>, DomainError>(None),
{
    lemma_contents_after_writes(states, writes, id);
}

} // verus!
