use vstd::prelude::*;

verus! {

/// Anything with an identity. By itself it does not imply a repository of
/// its own: that is what `AggregateRoot` decides.
pub trait Entity {
    /// The type of the identity; each domain picks its own.
    type Id: Clone + Eq;

    /// The identity the entity carries, if one has been assigned to it. An
    /// entity type verified here defines it; the default says nothing.
    closed spec fn spec_id(&self) -> Option<Self::Id> {
        arbitrary()
    }

    /// The identity the entity carries, if one has been assigned to it.
    fn id(&self) -> (r: Option<Self::Id>)
        ensures
            r == self.spec_id(),
    ;

    /// The name that errors about this kind of entity use. An entity type
    /// verified here defines it; the default says nothing.
    closed spec fn spec_entity_name() -> Seq<char> {
        arbitrary()
    }

    /// The name that errors about this kind of entity use (`NotFound`).
    fn entity_name() -> (name: &'static str)
        ensures
            name@ == Self::spec_entity_name(),
    ;
}

/// Marker: only the root entity of an aggregate gets a repository.
pub trait AggregateRoot: Entity {
}

} // verus!
