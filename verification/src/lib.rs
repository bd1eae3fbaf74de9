//! Core of a chat sentiment tracker: a parser that classifies chat
//! messages into actions, a per-user flag-set reducer, and a store that
//! maps user identities to their flags and serves aggregate counts.

pub mod parse;
pub mod reducer;
pub mod store;
