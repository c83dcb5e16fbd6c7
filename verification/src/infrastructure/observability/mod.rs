pub mod health;

pub use health::{HealthCheck, HealthRegistry};
