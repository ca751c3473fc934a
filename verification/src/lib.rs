//! A small user-management library: self-validating value objects
//! (`UserName`, `UserId`), the `User` aggregate, a repository capability
//! contract, the use cases built on it, and the request-handling layer
//! that maps domain errors to HTTP-style responses.

pub mod error;
pub mod error_handler;
pub mod extracter;
pub mod mock_context;
pub mod repository;
pub mod usecase;
pub mod user;
pub mod users;
