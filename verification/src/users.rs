//! The request handlers, one module per route on `/users`.

pub mod create;
pub mod get;
