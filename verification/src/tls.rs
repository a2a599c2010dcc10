//! Transport-security upgrade state machine.
//!
//! A connection's byte stream is either still raw, already protected, or in
//! the middle of an upgrade. The handshake itself is outside work performed
//! by the host around this core; the machine here owns every decision:
//! when an upgrade may start, that upgrading twice is an error, that a
//! completed handshake yields a protected stream, and that a stream caught
//! mid-upgrade (a failed handshake that was never completed) refuses all
//! further I/O immediately instead of hanging.

use vstd::prelude::*;

use crate::error::Error;

verus! {

/// A byte stream that may or may not be protected yet.
///
/// `Upgrading` is only ever observable after a failed upgrade: on success the
/// machine moves `Raw` to `Tls` in one call pair, and a stream left in
/// `Upgrading` is a dead connection.
pub enum MaybeTlsStream<S> {
    /// Plain stream, not yet upgraded.
    Raw(S),
    /// Protected stream.
    Tls(S),
    /// An upgrade is in flight (or failed and abandoned); no stream is held.
    Upgrading,
}

impl<S> MaybeTlsStream<S> {
    /// True exactly when the stream is protected.
    pub fn is_tls(&self) -> (r: bool)
        ensures
            r == (self is Tls),
    {
        matches!(self, MaybeTlsStream::Tls(_))
    }

    /// True exactly when I/O may be issued: a stream caught mid-upgrade
    /// fails fast instead of blocking.
    pub fn io_allowed(&self) -> (r: bool)
        ensures
            r == !(self is Upgrading),
    {
        !matches!(self, MaybeTlsStream::Upgrading)
    }

    /// Decides whether an upgrade may start and, if so, surrenders the raw
    /// stream for the handshake, leaving the machine mid-upgrade.
    ///
    /// - raw stream: hand it out; the caller must run the handshake and
    ///   either call [`Self::complete_upgrade`] or abandon the connection;
    /// - already protected: idempotent success, nothing to do;
    /// - already mid-upgrade: internal misuse or an earlier failed upgrade;
    ///   the connection is dead and the call fails fast.
    pub fn begin_upgrade(&mut self) -> (r: Result<Option<S>, Error>)
        ensures
            *old(self) is Raw ==> {
                &&& *final(self) is Upgrading
                &&& r == Ok::<Option<S>, Error>(Some((*old(self))->Raw_0))
            },
            *old(self) is Tls ==> {
                &&& *final(self) == *old(self)
                &&& r == Ok::<Option<S>, Error>(None::<S>)
            },
            *old(self) is Upgrading ==> {
                &&& *final(self) is Upgrading
                &&& r == Err::<Option<S>, Error>(Error::ConnectionAborted)
            },
    {
        let mut prev = MaybeTlsStream::Upgrading;
        core::mem::swap(self, &mut prev);
        match prev {
            MaybeTlsStream::Raw(s) => Ok(Some(s)),
            MaybeTlsStream::Tls(s) => {
                *self = MaybeTlsStream::Tls(s);
                Ok(None)
            },
            MaybeTlsStream::Upgrading => Err(Error::ConnectionAborted),
        }
    }

    /// Installs the protected stream produced by a successful handshake.
    ///
    /// Only legal mid-upgrade; a reverted upgrade is not supported, so a
    /// failed handshake simply never calls this and the machine stays dead.
    pub fn complete_upgrade(&mut self, secured: S)
        requires
            *old(self) is Upgrading,
        ensures
            *final(self) == MaybeTlsStream::Tls(secured),
    {
        *self = MaybeTlsStream::Tls(secured);
    }
}

} // verus!
