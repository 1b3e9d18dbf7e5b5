//! Authentication and capability-based authorization core of a multi-tenant
//! deployment platform.
//!
//! An inbound request's bearer credential is resolved to an identity
//! ([`auth::UserAuth`]); lookups are memoized in a single-flight,
//! time-to-live cache ([`cache::MemoCache`]); protected resources answer
//! access questions through a uniform capability contract
//! ([`auth::AccessibleResource`]), implemented here for teams
//! ([`team::TeamId`]).
//!
//! All backing-store reads and HTTP handling happen outside this crate: the
//! functions here are state machines that tell their caller when a
//! backing-store read is needed and fold its outcome back into the state.

pub mod auth;
pub mod cache;
pub mod ipfs;
pub mod routes;
pub mod session;
pub mod state;
pub mod team;
