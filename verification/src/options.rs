//! Per-socket options.
//!
//! Every socket carries a [`GeneralOptions`] record: the non-blocking flag,
//! the reuse-address flag, the send and receive timeouts (zero meaning "wait
//! forever") and whether the socket's device is externally driven. All
//! accesses to the record happen under the subsystem's serialization point,
//! so the fields are plain values.

use vstd::prelude::*;

verus! {

/// A request to read one socket option.
#[derive(Clone, Copy, Debug, PartialEq, Eq, Structural)]
pub enum GetSocketOption {
    /// The pending socket error.
    Error,
    /// The non-blocking flag.
    NonBlocking,
    /// The reuse-address flag.
    ReuseAddress,
    /// The send timeout, in nanoseconds.
    SendTimeout,
    /// The receive timeout, in nanoseconds.
    ReceiveTimeout,
    /// The send buffer size.
    SendBuffer,
    /// The receive buffer size.
    ReceiveBuffer,
    /// The TCP keep-alive setting, handled by the TCP layer, not here.
    KeepAlive,
}

/// The value read for one socket option.
#[derive(Clone, Copy, Debug, PartialEq, Eq, Structural)]
pub enum SocketOptionValue {
    /// A pending errno value.
    Error(i32),
    /// The non-blocking flag.
    NonBlocking(bool),
    /// The reuse-address flag.
    ReuseAddress(bool),
    /// The send timeout, in nanoseconds; zero means "wait forever".
    SendTimeout(u64),
    /// The receive timeout, in nanoseconds; zero means "wait forever".
    ReceiveTimeout(u64),
}

/// A request to set one socket option.
#[derive(Clone, Copy, Debug, PartialEq, Eq, Structural)]
pub enum SetSocketOption {
    /// Set the non-blocking flag.
    NonBlocking(bool),
    /// Set the reuse-address flag.
    ReuseAddress(bool),
    /// Set the send timeout, in nanoseconds; zero means "wait forever".
    SendTimeout(u64),
    /// Set the receive timeout, in nanoseconds; zero means "wait forever".
    ReceiveTimeout(u64),
    /// Set the send buffer size. Accepted and currently a no-op.
    SendBuffer(usize),
    /// Set the receive buffer size. Accepted and currently a no-op.
    ReceiveBuffer(usize),
    /// The TCP keep-alive setting, handled by the TCP layer, not here.
    KeepAlive(bool),
}

/// General options carried by every socket.
#[derive(Clone, Copy, Debug, PartialEq, Eq, Structural)]
pub struct GeneralOptions {
    /// Whether the socket is non-blocking.
    pub nonblock: bool,
    /// Whether the socket should reuse its address.
    pub reuse_addr: bool,
    /// Send timeout in nanoseconds; zero means "wait forever".
    pub send_timeout_nanos: u64,
    /// Receive timeout in nanoseconds; zero means "wait forever".
    pub recv_timeout_nanos: u64,
    /// Whether new data can arrive on the socket's device between two
    /// polling passes on its own, as on a NIC that hardware keeps feeding.
    /// False for devices that move packets only when the calling task's own
    /// loop polls them, such as loopback.
    pub externally_driven: bool,
}

impl GeneralOptions {
    /// Fresh options: blocking, no address reuse, no timeouts, not
    /// externally driven.
    pub fn new() -> (r: GeneralOptions)
        ensures
            r == (GeneralOptions {
                nonblock: false,
                reuse_addr: false,
                send_timeout_nanos: 0u64,
                recv_timeout_nanos: 0u64,
                externally_driven: false,
            }),
    {
        GeneralOptions {
            nonblock: false,
            reuse_addr: false,
            send_timeout_nanos: 0,
            recv_timeout_nanos: 0,
            externally_driven: false,
        }
    }

    /// Whether the socket is non-blocking.
    pub fn nonblocking(&self) -> (r: bool)
        ensures
            r == self.nonblock,
    {
        self.nonblock
    }

    /// Whether the socket should reuse its address.
    pub fn reuse_address(&self) -> (r: bool)
        ensures
            r == self.reuse_addr,
    {
        self.reuse_addr
    }

    /// The configured send timeout in nanoseconds, or `None` when the socket
    /// waits forever.
    pub fn send_timeout(&self) -> (r: Option<u64>)
        ensures
            r == (if self.send_timeout_nanos > 0 {
                Some(self.send_timeout_nanos)
            } else {
                None::<u64>
            }),
    {
        if self.send_timeout_nanos > 0 {
            Some(self.send_timeout_nanos)
        } else {
            None
        }
    }

    /// The configured receive timeout in nanoseconds, or `None` when the
    /// socket waits forever.
    pub fn recv_timeout(&self) -> (r: Option<u64>)
        ensures
            r == (if self.recv_timeout_nanos > 0 {
                Some(self.recv_timeout_nanos)
            } else {
                None::<u64>
            }),
    {
        if self.recv_timeout_nanos > 0 {
            Some(self.recv_timeout_nanos)
        } else {
            None
        }
    }

    /// Marks whether the socket's device is externally driven.
    pub fn set_externally_driven(&mut self, driven: bool)
        ensures
            *final(self) == (GeneralOptions { externally_driven: driven, ..*old(self) }),
    {
        self.externally_driven = driven;
    }

    /// Reads one option. `None` means the option is not handled at this
    /// layer and the caller should consult the socket-specific layer.
    ///
    /// The pending error always reads as zero: this layer keeps no deferred
    /// errors, a known simplification.
    pub fn get_option_inner(&self, option: GetSocketOption) -> (r: Option<SocketOptionValue>)
        ensures
            r == self.spec_get_option(option),
    {
        match option {
            GetSocketOption::Error => Some(SocketOptionValue::Error(0)),
            GetSocketOption::NonBlocking => Some(SocketOptionValue::NonBlocking(self.nonblock)),
            GetSocketOption::ReuseAddress => Some(SocketOptionValue::ReuseAddress(self.reuse_addr)),
            GetSocketOption::SendTimeout => Some(
                SocketOptionValue::SendTimeout(self.send_timeout_nanos),
            ),
            GetSocketOption::ReceiveTimeout => Some(
                SocketOptionValue::ReceiveTimeout(self.recv_timeout_nanos),
            ),
            _ => None,
        }
    }

    /// What `get_option_inner` answers.
    pub open spec fn spec_get_option(self, option: GetSocketOption) -> Option<SocketOptionValue> {
        match option {
            GetSocketOption::Error => Some(SocketOptionValue::Error(0)),
            GetSocketOption::NonBlocking => Some(SocketOptionValue::NonBlocking(self.nonblock)),
            GetSocketOption::ReuseAddress => Some(SocketOptionValue::ReuseAddress(self.reuse_addr)),
            GetSocketOption::SendTimeout => Some(
                SocketOptionValue::SendTimeout(self.send_timeout_nanos),
            ),
            GetSocketOption::ReceiveTimeout => Some(
                SocketOptionValue::ReceiveTimeout(self.recv_timeout_nanos),
            ),
            GetSocketOption::SendBuffer => None,
            GetSocketOption::ReceiveBuffer => None,
            GetSocketOption::KeepAlive => None,
        }
    }

    /// Applies one option. Returns whether the option was handled at this
    /// layer; an unrecognized option reports "not handled" rather than
    /// failing. The buffer-size options are accepted and currently change
    /// nothing.
    pub fn set_option_inner(&mut self, option: SetSocketOption) -> (handled: bool)
        ensures
            *final(self) == old(self).spec_set_option(option).0,
            handled == old(self).spec_set_option(option).1,
    {
        match option {
            SetSocketOption::NonBlocking(v) => {
                self.nonblock = v;
                true
            },
            SetSocketOption::ReuseAddress(v) => {
                self.reuse_addr = v;
                true
            },
            SetSocketOption::SendTimeout(nanos) => {
                self.send_timeout_nanos = nanos;
                true
            },
            SetSocketOption::ReceiveTimeout(nanos) => {
                self.recv_timeout_nanos = nanos;
                true
            },
            SetSocketOption::SendBuffer(_) => true,
            SetSocketOption::ReceiveBuffer(_) => true,
            SetSocketOption::KeepAlive(_) => false,
        }
    }

    /// What `set_option_inner` does: the updated options and whether the
    /// option was handled here.
    pub open spec fn spec_set_option(self, option: SetSocketOption) -> (GeneralOptions, bool) {
        match option {
            SetSocketOption::NonBlocking(v) => ((GeneralOptions { nonblock: v, ..self }), true),
            SetSocketOption::ReuseAddress(v) => ((GeneralOptions { reuse_addr: v, ..self }), true),
            SetSocketOption::SendTimeout(nanos) => (
                (GeneralOptions { send_timeout_nanos: nanos, ..self }),
                true,
            ),
            SetSocketOption::ReceiveTimeout(nanos) => (
                (GeneralOptions { recv_timeout_nanos: nanos, ..self }),
                true,
            ),
            SetSocketOption::SendBuffer(_) => (self, true),
            SetSocketOption::ReceiveBuffer(_) => (self, true),
            SetSocketOption::KeepAlive(_) => (self, false),
        }
    }
}

} // verus!
