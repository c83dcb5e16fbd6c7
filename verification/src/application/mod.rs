pub mod ports;
pub mod unit_of_work;
pub mod use_cases;

pub use ports::auth::{Authenticator, Principal};
pub use ports::{ReadRepository, WriteRepository};
pub use unit_of_work::UnitOfWork;
pub use use_cases::{CreateUseCase, CreationPolicy, QueryUseCase};
