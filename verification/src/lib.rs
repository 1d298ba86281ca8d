//! A small HTTP record service: session cookies, an in-memory store of
//! person records, and the per-connection request handling around them.

pub mod connection;
pub mod cookies;
pub mod json;
pub mod person;
pub mod store;
pub mod text;
