pub mod create;
pub mod query;

pub use create::{CreateUseCase, CreationPolicy};
pub use query::QueryUseCase;
