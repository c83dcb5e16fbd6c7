pub mod cache;

pub use cache::{Cache, CachedReadRepository};
