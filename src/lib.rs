//! A local credential manager: credential records, the repository contract
//! over a collection of them, and the use cases that resolve a record by its
//! site name and user name.
pub mod entity;
pub mod records;
pub mod repository;
pub mod password_repository;
pub mod use_case;

pub use entity::PasswordEntity;
pub use repository::{IPasswordRepository, RepositoryError, RepositoryResult};
pub use password_repository::PasswordRepository;
pub use use_case::PasswordUseCase;
