//! Reconstructs an ordered notification history from observed bus traffic:
//! creation calls, their replies and close signals are correlated into
//! records, closed records enter a bounded history, and raw icons are kept in
//! a reference-counted, content-addressed cache.

pub mod cache;
pub mod engine;
pub mod laws;
pub mod notification;
pub mod outside;
pub mod snapshot;
