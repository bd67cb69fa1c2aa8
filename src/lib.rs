//! Typed event decoding and dispatch for a chain indexer.
//!
//! Raw logs are read through a contract deployment (`binding`), decoded into
//! typed payloads that keep the provenance of their log (`provenance`), and
//! routed by topic id to the handler of the first route registered for it
//! (`registry`). A batch keeps the order of its logs; a log that does not
//! decode is left out and reported; a topic with no route is dropped.

pub mod binding;
pub mod provenance;
pub mod registry;
