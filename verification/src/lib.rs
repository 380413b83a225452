//! Chooses which release of an external tool to install and plans how to
//! fetch, cache and unpack it.
//!
//! The crate holds the decisions only. Reading the release index, asking the
//! user, and touching the cache or the install target are left to the caller,
//! who hands the library what it read and carries out what the library
//! answers.
pub mod archive;
pub mod args;
pub mod constraint;
pub mod error;
pub mod fetch;
pub mod grammar;
pub mod http;
pub mod listing;
pub mod resolve;
pub mod target;
pub mod text;
