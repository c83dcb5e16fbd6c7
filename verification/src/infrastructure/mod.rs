pub mod caching;
pub mod in_memory_repository;
pub mod observability;

pub use in_memory_repository::InMemoryRepository;
pub mod web;
