//! An in-memory catalog of remotely hosted audio tracks.
//!
//! The library mirrors a remote folder of audio files into an immutable
//! catalog snapshot and serves individual tracks by a date-derived filename
//! key.  It covers the synchronization core: paginated traversal of a remote
//! listing ([`listing`]), filtering to audio entries ([`filter`]), acceptance
//! of downloaded content ([`fetcher`]), aggregation into a keyed catalog
//! ([`catalog`]), publication of the catalog ([`store`]), and the refresh
//! cycle that ties them together ([`coordinator`]).
//!
//! Network transport, authentication and HTTP routing are collaborators that
//! live outside the library; they hand plain values in and take plain values
//! back.

pub mod catalog;
pub mod coordinator;
pub mod errors;
pub mod fetcher;
pub mod filter;
pub mod listing;
pub mod naming;
pub mod serve;
pub mod store;
