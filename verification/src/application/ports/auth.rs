use vstd::prelude::*;

use crate::domain::DomainError;

verus! {

/// The outcome of authenticating a request. Opaque: it does not care whether
/// the credential was a JWT, an API key or anything else.
pub trait Principal {
    fn subject_id(&self) -> &str;

    fn has_permission(&self, permission: &str) -> bool;
}

/// The concrete project implements this against whatever it uses (or does
/// not, when the service needs no authentication). The kernel never imports
/// a provider.
///
/// `authenticates` relates a raw credential to what `authenticate` may answer
/// for it; the default relation claims nothing.
pub trait Authenticator {
    type P: Principal;

    closed spec fn authenticates(&self, raw_credential: Seq<char>, outcome: Result<Self::P, DomainError>) -> bool {
        true
    }

    fn authenticate(&self, raw_credential: &str) -> (outcome: Result<Self::P, DomainError>)
        ensures
            self.authenticates(raw_credential@, outcome),
    ;
}

} // verus!
