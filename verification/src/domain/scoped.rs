use vstd::prelude::*;

verus! {

/// Optional capability: a domain implements it only when its entities are
/// filtered by some scope (tenant, organization, workspace...). The kernel
/// does not say what a scope is, it only reserves the shape.
pub trait Scoped {
    type ScopeId: Clone + Eq;

    fn scope_id(&self) -> &Self::ScopeId;
}

} // verus!
