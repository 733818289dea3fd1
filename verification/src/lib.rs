//! Reconciliation of a mixtape feed with a streaming catalog's playlists.
//!
//! The crate holds the decisions only: how a feed entry's text becomes an
//! ordered list of search queries, which playlist an entry belongs to, and
//! which catalog call comes next. The calls themselves are made by the caller.

pub mod descriptor;
pub mod engine;
pub mod identity;
pub mod listing;
