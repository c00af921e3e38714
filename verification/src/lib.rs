//! A verified core for a small notes service: the records and their
//! invariants, an in-memory image of the notes table with contracts on every
//! CRUD operation, the partial-update merge, pagination arithmetic, and the
//! mapping from operation outcomes to HTTP status codes and response labels.
//!
//! The pieces that only move bytes — the HTTP server, the SQL connection —
//! live outside this crate and hand it plain values.

pub mod http;
pub mod note;
pub mod store;
pub mod text;
