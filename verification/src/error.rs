//! Error taxonomy of the metadata-resolution core.

use vstd::prelude::*;

verus! {

/// Everything that can go wrong while describing a statement or driving the
/// transport state machine.
#[derive(Clone, Copy, Debug, PartialEq, Eq, Structural)]
pub enum Error {
    /// Transport is unusable: the stream was consumed by a failed security
    /// upgrade, and any further I/O must fail fast instead of hanging.
    ConnectionAborted,
    /// A wire message could not be decoded.
    Protocol,
    /// A catalog query failed for a reason other than a missing row.
    CatalogQuery,
    /// The catalog holds no row for the referenced type identifier.
    TypeNotFound(u32),
    /// A type definition reaches itself: resolving it would never terminate.
    TypeCycle(u32),
    /// The structured query plan was not in the expected shape.
    PlanParse,
}

impl Error {
    /// Stable, human-readable tag for each error class.
    pub fn message(&self) -> (r: &'static str)
        ensures
            r@.len() > 0,
    {
        proof {
            reveal_strlit("connection aborted");
            reveal_strlit("protocol error");
            reveal_strlit("catalog query failed");
            reveal_strlit("type not found in catalog");
            reveal_strlit("type definition references itself");
            reveal_strlit("unexpected query plan shape");
        }
        match self {
            Error::ConnectionAborted => "connection aborted",
            Error::Protocol => "protocol error",
            Error::CatalogQuery => "catalog query failed",
            Error::TypeNotFound(_) => "type not found in catalog",
            Error::TypeCycle(_) => "type definition references itself",
            Error::PlanParse => "unexpected query plan shape",
        }
    }
}

} // verus!
