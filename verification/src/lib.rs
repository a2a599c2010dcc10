//! Metadata-resolution core of an asynchronous database driver.
//!
//! Given the raw wire metadata of a prepared statement (opaque type
//! identifiers, source relation and attribute references), this library
//! produces a fully typed description of the statement's output columns and
//! input parameters, resolving user-defined array, range, enum and composite
//! types through a per-connection cache backed by catalog lookups, and infers
//! per-column nullability with a query-plan fallback.
//!
//! Network transport, TLS establishment and the async runtime are external
//! collaborators; this crate holds the decision logic and is verified.

pub mod cache;
pub mod catalog;
pub mod describe;
pub mod error;
pub mod nullable;
pub mod resolve;
pub mod runtime;
pub mod tls;
pub mod types;
