pub mod domain;
pub mod application;
pub mod infrastructure;
