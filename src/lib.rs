//! Core of an anonymous file host: identifier allocation, deletion secrets,
//! the upload ledger's rules and the decisions of the upload and delete
//! handlers.

pub mod error;
pub mod text;
pub mod names;
pub mod secret;
pub mod ledger;
pub mod allocator;
pub mod handlers;
pub mod config;

pub use error::Error;
