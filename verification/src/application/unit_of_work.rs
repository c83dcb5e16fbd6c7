use vstd::prelude::*;

verus! {

/// When a use case needs two writes to different aggregates to be atomic, the
/// answer is not to hand a database transaction to the application layer but
/// a port that says "run this atomically" without the domain knowing that a
/// real transaction lies underneath. Its exact signature is deliberately left
/// open until the first real case with two aggregates in one transaction.
pub trait UnitOfWork {
}

} // verus!
