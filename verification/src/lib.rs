//! POSIX-like TCP/UDP socket services for kernel-resident tasks in a
//! single-address-space system.
//!
//! The crate bridges a poll-driven protocol engine with a cooperatively
//! scheduled task system: socket operations support blocking, non-blocking
//! and timeout-bound modes without interrupt-driven wakeups, while several
//! tasks share one socket table and one or more devices. A second concern is
//! multi-device routing: choosing the device and next hop that serve a given
//! destination address.
//!
//! The surrounding kernel's memory management — its page allocator and its
//! memory-mapping backends — is not part of this library: its substance is
//! implementations of outside paging traits over raw memory, which the
//! verifier cannot host. It stays with the kernel runtime, as does DWARF
//! symbolization of captured stack frames.

pub mod backtrace;
pub mod blocking;
pub mod console;
pub mod device;
pub mod dns;
pub mod err;
pub mod ip;
pub mod listen_table;
pub mod options;
pub mod router;
pub mod service;
pub mod stack;
pub mod task;
pub mod wrapper;
