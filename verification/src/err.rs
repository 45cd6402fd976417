//! The error taxonomy of the socket subsystem.

use vstd::prelude::*;

verus! {

/// Errors reported by socket operations.
///
/// Every error is returned to the immediate caller; nothing is retried
/// automatically except the transient classes handled inside the blocking
/// engine and the DNS loop.
#[derive(Clone, Copy, Debug, PartialEq, Eq, Structural)]
pub enum SysError {
    /// A non-blocking call found nothing ready.
    WouldBlock,
    /// The deadline elapsed while retrying.
    TimedOut,
    /// Task-level cancellation was observed.
    Interrupted,
    /// A bind conflict without reuse-address on both sides.
    AddressInUse,
    /// No routing rule matches the destination.
    NoRoute,
    /// A malformed or over-length DNS name, or an invalid option value.
    InvalidArgument,
    /// No free DNS query slot, or a listen backlog is full.
    Busy,
    /// DNS resolution failed at the protocol engine.
    ConnectionRefused,
    /// A connection-state error reported by the protocol engine, carried
    /// through verbatim as its errno value.
    Protocol(i32),
}

impl SysError {
    /// A short diagnostic name for the error.
    pub fn as_str(&self) -> &'static str {
        match self {
            SysError::WouldBlock => "would block",
            SysError::TimedOut => "timed out",
            SysError::Interrupted => "interrupted",
            SysError::AddressInUse => "address in use",
            SysError::NoRoute => "no route to host",
            SysError::InvalidArgument => "invalid argument",
            SysError::Busy => "busy",
            SysError::ConnectionRefused => "connection refused",
            SysError::Protocol(_) => "protocol error",
        }
    }
}

/// The usual result type of the subsystem.
pub type SysResult<T> = Result<T, SysError>;

} // verus!
