//! Core of a channel-based communication service: session-backed identity
//! resolution and role-based access control over channels and their members.
//!
//! The persistence capability (users, sessions, channels, members) is realized
//! by an in-memory [`store::Store`]; every operation's behaviour is pinned down
//! by its contract over the store's mathematical view.

pub mod auth;
pub mod endpoints;
pub mod laws;
pub mod models;
pub mod store;
