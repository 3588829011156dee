//! Core engine of a per-application task monitor.
//!
//! The library resolves running operating-system processes to user-facing
//! application identities (desktop launcher entries or Steam titles),
//! aggregates per-application resource metrics, orders the result, and plans
//! process-lifecycle actions (restart, stop, kill, focus, locate, copy-info)
//! against the resolved identity.
//!
//! All text is handled as byte strings (`Vec<u8>`), so the whole pipeline is
//! verified; the surrounding program converts between OS strings and bytes and
//! performs every system call (process table reads, signals, spawning).

pub mod aggregate;
pub mod bytes;
pub mod engine;
pub mod keys;
pub mod launch;
pub mod lit;
pub mod process;
pub mod registry;
pub mod restart;
pub mod session;
pub mod sort;
pub mod steam;
