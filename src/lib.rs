//! Minimum Supported Rust Version search: the verified core.
//!
//! The library holds the release filter, the two search strategies, the
//! probe and orchestration state machines, and the typed event stream they
//! emit. Running processes, touching the file system and rendering events
//! are left to the caller, which performs the actions these machines ask for
//! and hands back what happened.

pub mod version;
pub mod toolchain;
pub mod errors;
pub mod search;
pub mod config;
pub mod filter;
pub mod event;
pub mod reporter;
pub mod check;
pub mod find;
