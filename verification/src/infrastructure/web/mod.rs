pub mod auth_layer;
pub mod error_mapping;
pub mod middleware;
pub mod rest_resource;

pub use auth_layer::extract_credential;
pub use error_mapping::ProblemDetail;
pub use middleware::MakeRequestUuid;
pub use rest_resource::{PageParams, RestResource};
