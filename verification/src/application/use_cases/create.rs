use core::marker::PhantomData;
use vstd::prelude::*;

use crate::application::ports::WriteRepository;
use crate::domain::{AggregateRoot, DomainError};

verus! {

/// Each domain implements this ONCE: the specific rule lives here (for
/// example "the email cannot repeat"), not in the kernel.
///
/// `builds` relates an input to what `build` may give for it, `admits` an
/// entity to what `check_invariants` may answer for it. The default relations
/// claim nothing: whatever a policy answers, the creation use case states its
/// outcome in terms of these relations.
pub trait CreationPolicy<T: AggregateRoot, Input> {
    closed spec fn builds(&self, input: Input, outcome: Result<T, DomainError>) -> bool {
        true
    }

    closed spec fn admits(&self, entity: T, outcome: Result<(), DomainError>) -> bool {
        true
    }

    fn build(&self, input: Input) -> (outcome: Result<T, DomainError>)
        ensures
            self.builds(input, outcome),
    ;

    /// Check of a GLOBAL invariant that needs the repository (uniqueness, for
    /// example): the kernel decides when it runs, the domain what it checks.
    fn check_invariants(&self, entity: &T) -> (outcome: Result<(), DomainError>)
        ensures
            self.admits(*entity, outcome),
    ;
}

/// What a creation gives, step by step: the policy builds the entity from the
/// input, then checks its invariants, then the repository creates it. The
/// first step that fails ends the creation with its error and leaves the
/// repository as it was.
pub open spec fn creation_outcome<T: AggregateRoot, R: WriteRepository<T>, P: CreationPolicy<T, T>>(
    policy: P,
    before: R,
    after: R,
    input: T,
    outcome: Result<T, DomainError>,
) -> bool {
    exists|built: Result<T, DomainError>|
        #![trigger policy.builds(input, built)]
        policy.builds(input, built) && match built {
            Err(e) => outcome == Err::<T, DomainError>(e) && after == before,
            Ok(entity) => exists|checked: Result<(), DomainError>|
                #![trigger policy.admits(entity, checked)]
                policy.admits(entity, checked) && match checked {
                    Err(e) => outcome == Err::<T, DomainError>(e) && after == before,
                    Ok(()) => R::created(before, after, entity, outcome),
                },
        }
}

/// Creation use case. It publishes no events itself: when the creation event
/// matters, the caller publishes it after `execute` with its own bus.
pub struct CreateUseCase<'a, T: AggregateRoot, R: WriteRepository<T>, P: CreationPolicy<T, T>> {
    pub repository: &'a mut R,
    pub policy: &'a P,
    pub marker: PhantomData<T>,
}

impl<'a, T: AggregateRoot, R: WriteRepository<T>, P: CreationPolicy<T, T>> CreateUseCase<'a, T, R, P> {
    pub fn new(repository: &'a mut R, policy: &'a P) -> (create: Self)
        ensures
            *create.repository == *old(repository),
            *final(create.repository) == *final(repository),
            *create.policy == *policy,
    {
        CreateUseCase { repository, policy, marker: PhantomData }
    }

    pub fn execute(&mut self, input: T) -> (outcome: Result<T, DomainError>)
        ensures
            creation_outcome(*old(self).policy, *old(self).repository, *final(self).repository, input, outcome),
            *final(final(self).repository) == *final(old(self).repository),
            final(self).policy == old(self).policy,
    {
        let built = self.policy.build(input);
        assert(self.policy.builds(input, built));
        let entity = match built {
            Err(e) => return Err(e),
            Ok(entity) => entity,
        };
        let checked = self.policy.check_invariants(&entity);
        assert(self.policy.admits(entity, checked));
        match checked {
            Err(e) => return Err(e),
            Ok(()) => {},
        }
        self.repository.create(entity)
    }
}

} // verus!
