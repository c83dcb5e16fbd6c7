pub mod channel;
pub mod entity;
pub mod error;
pub mod event;
pub mod scoped;
pub mod value_object;

pub use entity::{AggregateRoot, Entity};
pub use error::DomainError;
pub use event::{DomainEvent, EventBus};
pub use scoped::Scoped;
pub use value_object::ValueObject;
