//! Core of a terminal explorer for a package-registry ecosystem.
//!
//! The library holds the verified logic: the job-channel bus that keeps at
//! most one background job outstanding per category, the sandboxed install
//! manager's state machine, the application state the render loop folds
//! messages into, the cache freshness rules, and the snapshot codec used for
//! the cache file. Everything that touches the terminal, the network or the
//! file system lives outside, hands plain values in, and takes plain values
//! back.

pub mod bridge;
pub mod bus;
pub mod cache;
pub mod codec;
pub mod install;
pub mod query;
pub mod state;
pub mod stats;
pub mod text;
pub mod types;
