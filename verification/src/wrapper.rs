//! The shared socket table.
//!
//! A registry of live protocol-engine sockets keyed by opaque handles. What
//! the table's own logic reads of a socket — its kind, its bound endpoint,
//! its general options — is carried as plain values in a [`SocketEntry`];
//! the engine's socket object itself stays behind the engine.
//!
//! The whole table sits behind one serialization point: exclusive access
//! (`&mut`) stands for the coarse table lock of the design, taken for the
//! duration of one step and never across a suspension. Handles are never
//! reused: a removed entry leaves a hole.

use vstd::prelude::*;

use crate::err::{SysError, SysResult};
use crate::ip::Ipv4Addr;
use crate::options::GeneralOptions;

verus! {

/// An opaque token identifying one live socket in the table.
pub type SocketHandle = usize;

/// Which protocol a socket speaks.
#[derive(Clone, Copy, Debug, PartialEq, Eq, Structural)]
pub enum SocketKind {
    /// A TCP socket.
    Tcp,
    /// A UDP socket.
    Udp,
    /// A DNS query socket.
    Dns,
}

/// What the table keeps of one live socket.
#[derive(Clone, Copy, Debug, PartialEq, Eq, Structural)]
pub struct SocketEntry {
    /// The socket's protocol.
    pub kind: SocketKind,
    /// The local address the socket is bound to, if it is bound to one
    /// specific address.
    pub bound_addr: Option<Ipv4Addr>,
    /// The local port the socket is bound to; zero when unbound.
    pub bound_port: u16,
    /// The socket's general options.
    pub options: GeneralOptions,
}

impl SocketEntry {
    /// A fresh entry of the given kind: unbound, default options.
    pub fn new(kind: SocketKind) -> (r: SocketEntry)
        ensures
            r == (SocketEntry {
                kind,
                bound_addr: None::<Ipv4Addr>,
                bound_port: 0u16,
                options: GeneralOptions {
                    nonblock: false,
                    reuse_addr: false,
                    send_timeout_nanos: 0u64,
                    recv_timeout_nanos: 0u64,
                    externally_driven: false,
                },
            }),
    {
        SocketEntry { kind, bound_addr: None, bound_port: 0, options: GeneralOptions::new() }
    }
}

/// Whether `entry` denies a new bind of `(addr, port)` whose requester has
/// reuse-address `reuse`: the entry is a live TCP or UDP socket bound to the
/// exact same pair, and reuse-address is not enabled on both sides.
pub open spec fn denies_bind(entry: SocketEntry, addr: Ipv4Addr, port: u16, reuse: bool) -> bool {
    &&& entry.kind != SocketKind::Dns
    &&& entry.bound_addr == Some(addr)
    &&& entry.bound_port == port
    &&& !(reuse && entry.options.reuse_addr)
}

/// Whether a bind of `(addr, port)` with requester reuse flag `reuse` is
/// admissible against `table`: an ephemeral request (`port == 0`) always is;
/// otherwise no live entry may deny it.
pub open spec fn bind_ok(
    table: Seq<Option<SocketEntry>>,
    addr: Ipv4Addr,
    port: u16,
    reuse: bool,
) -> bool {
    port == 0 || forall|i: int|
        0 <= i < table.len() ==> match #[trigger] table[i] {
            Some(e) => !denies_bind(e, addr, port, reuse),
            None => true,
        }
}

/// How many entries of `table` are live.
pub open spec fn live_count(table: Seq<Option<SocketEntry>>) -> nat
    decreases table.len(),
{
    if table.len() == 0 {
        0nat
    } else {
        live_count(table.drop_last()) + if table.last() is Some {
            1nat
        } else {
            0nat
        }
    }
}

/// Appending a live entry raises the live count by one.
pub proof fn lemma_live_count_push(table: Seq<Option<SocketEntry>>, entry: SocketEntry)
    ensures
        live_count(table.push(Some(entry))) == live_count(table) + 1,
{
    assert(table.push(Some(entry)).drop_last() =~= table);
}

/// Clearing a live slot lowers the live count by one.
pub proof fn lemma_live_count_clear(table: Seq<Option<SocketEntry>>, i: int)
    requires
        0 <= i < table.len(),
        table[i] is Some,
    ensures
        live_count(table.update(i, None)) == live_count(table) - 1,
    decreases table.len(),
{
    if i == table.len() - 1 {
        assert(table.update(i, None).drop_last() =~= table.drop_last());
    } else {
        assert(table.update(i, None).drop_last() =~= table.drop_last().update(i, None));
        lemma_live_count_clear(table.drop_last(), i);
    }
}

/// The shared socket table.
pub struct SocketSetWrapper {
    entries: Vec<Option<SocketEntry>>,
}

impl SocketSetWrapper {
    /// The table's contents: slot by slot, a live entry or a hole left by a
    /// removal.
    pub closed spec fn table(self) -> Seq<Option<SocketEntry>> {
        self.entries@
    }

    /// Whether `handle` names a live socket.
    pub open spec fn is_live(self, handle: SocketHandle) -> bool {
        handle < self.table().len() && self.table()[handle as int] is Some
    }

    /// An empty table.
    pub fn new() -> (r: SocketSetWrapper)
        ensures
            r.table() == Seq::<Option<SocketEntry>>::empty(),
    {
        SocketSetWrapper { entries: Vec::new() }
    }

    /// Registers a socket and returns its fresh handle. No live socket
    /// shares the handle: slots are never reused, so the handle is new.
    pub fn add(&mut self, entry: SocketEntry) -> (handle: SocketHandle)
        ensures
            handle == old(self).table().len(),
            final(self).table() == old(self).table().push(Some(entry)),
            final(self).is_live(handle),
            live_count(final(self).table()) == live_count(old(self).table()) + 1,
    {
        proof {
            lemma_live_count_push(self.entries@, entry);
        }
        let handle = self.entries.len();
        self.entries.push(Some(entry));
        handle
    }

    /// Deregisters a socket. Calling this with a handle that is not live is
    /// a programmer error, not a recoverable condition: the precondition
    /// excludes it.
    pub fn remove(&mut self, handle: SocketHandle)
        requires
            old(self).is_live(handle),
        ensures
            final(self).table() == old(self).table().update(handle as int, None),
            live_count(final(self).table()) == live_count(old(self).table()) - 1,
    {
        proof {
            lemma_live_count_clear(self.entries@, handle as int);
        }
        self.entries.set(handle, None);
    }

    /// Reads one live socket under the table lock: looks the entry up and
    /// hands it to `f`. `f` must be non-blocking and must not reach back
    /// into the table or trigger a polling pass — the lock is held across
    /// it.
    pub fn with_socket<R, F: FnOnce(SocketEntry) -> R>(&self, handle: SocketHandle, f: F) -> (r: R)
        requires
            self.is_live(handle),
            call_requires(f, (self.table()[handle as int]->Some_0,)),
        ensures
            call_ensures(f, (self.table()[handle as int]->Some_0,), r),
    {
        let entry = match &self.entries[handle] {
            Some(e) => *e,
            None => unreached(),
        };
        f(entry)
    }

    /// Updates one live socket under the table lock: hands the entry to `f`
    /// and stores the entry `f` returns, handing back `f`'s result. The same
    /// discipline as [`Self::with_socket`] applies.
    pub fn with_socket_mut<R, F: FnOnce(SocketEntry) -> (SocketEntry, R)>(
        &mut self,
        handle: SocketHandle,
        f: F,
    ) -> (r: R)
        requires
            old(self).is_live(handle),
            call_requires(f, (old(self).table()[handle as int]->Some_0,)),
        ensures
            exists|updated: SocketEntry|
                {
                    &&& #[trigger] call_ensures(
                        f,
                        (old(self).table()[handle as int]->Some_0,),
                        (updated, r),
                    )
                    &&& final(self).table() == old(self).table().update(
                        handle as int,
                        Some(updated),
                    )
                },
    {
        let entry = match &self.entries[handle] {
            Some(e) => *e,
            None => unreached(),
        };
        let (updated, r) = f(entry);
        self.entries.set(handle, Some(updated));
        r
    }

    /// Counts the live sockets in the table.
    pub fn live_sockets(&self) -> (r: usize)
        ensures
            r == live_count(self.table()),
    {
        proof {
            assert(self.table().take(0) =~= Seq::<Option<SocketEntry>>::empty());
        }
        let n = self.entries.len();
        let mut count: usize = 0;
        let mut i: usize = 0;
        while i < n
            invariant
                n == self.table().len(),
                0 <= i <= n,
                count <= i,
                count == live_count(self.table().take(i as int)),
            decreases n - i,
        {
            proof {
                assert(self.table().take(i + 1).drop_last() =~= self.table().take(i as int));
                assert(self.table().take(i + 1).last() == self.table()[i as int]);
            }
            match &self.entries[i] {
                Some(_) => {
                    count = count + 1;
                },
                None => {},
            }
            i = i + 1;
        }
        proof {
            assert(self.table().take(n as int) =~= self.table());
        }
        count
    }

    /// Checks address/port bind-exclusivity against every live socket.
    ///
    /// An ephemeral request (`port == 0`) always succeeds. Otherwise the
    /// table is scanned linearly — socket counts are small — and the bind is
    /// refused with `AddressInUse` exactly when some live TCP or UDP socket
    /// is bound to the same `(addr, port)` pair without reuse-address
    /// enabled on both sides; `reuse` is the requester's own reuse-address
    /// flag.
    pub fn bind_check(&self, addr: Ipv4Addr, port: u16, reuse: bool) -> (r: SysResult<()>)
        ensures
            r is Ok <==> bind_ok(self.table(), addr, port, reuse),
            r is Err ==> r == Err::<(), SysError>(SysError::AddressInUse),
    {
        if port == 0 {
            return Ok(());
        }
        let n = self.entries.len();
        let mut i: usize = 0;
        while i < n
            invariant
                n == self.table().len(),
                0 <= i <= n,
                port != 0,
                forall|j: int|
                    0 <= j < i ==> match #[trigger] self.table()[j] {
                        Some(e) => !denies_bind(e, addr, port, reuse),
                        None => true,
                    },
            decreases n - i,
        {
            match &self.entries[i] {
                Some(e) => {
                    let same_kind = match e.kind {
                        SocketKind::Tcp => true,
                        SocketKind::Udp => true,
                        SocketKind::Dns => false,
                    };
                    let same_addr = match e.bound_addr {
                        Some(a) => a.bits == addr.bits,
                        None => false,
                    };
                    if same_kind && same_addr && e.bound_port == port && !(reuse
                        && e.options.reuse_addr) {
                        proof {
                            assert(denies_bind(
                                self.table()[i as int]->Some_0,
                                addr,
                                port,
                                reuse,
                            ));
                        }
                        return Err(SysError::AddressInUse);
                    }
                },
                None => {},
            }
            i = i + 1;
        }
        Ok(())
    }

    /// Binds a live socket to `(addr, port)`: runs the exclusivity check
    /// with the socket's own reuse-address flag and, when it passes, records
    /// the endpoint on the entry. A refused bind leaves the table unchanged.
    pub fn bind(&mut self, handle: SocketHandle, addr: Ipv4Addr, port: u16) -> (r: SysResult<()>)
        requires
            old(self).is_live(handle),
        ensures
            r is Ok <==> bind_ok(
                old(self).table(),
                addr,
                port,
                old(self).table()[handle as int]->Some_0.options.reuse_addr,
            ),
            r is Ok ==> final(self).table() == old(self).table().update(
                handle as int,
                Some(
                    SocketEntry {
                        bound_addr: Some(addr),
                        bound_port: port,
                        ..old(self).table()[handle as int]->Some_0
                    },
                ),
            ),
            r is Err ==> r == Err::<(), SysError>(SysError::AddressInUse) && final(self).table()
                == old(self).table(),
    {
        let entry = match &self.entries[handle] {
            Some(e) => *e,
            None => unreached(),
        };
        match self.bind_check(addr, port, entry.options.reuse_addr) {
            Ok(()) => {
                self.entries.set(
                    handle,
                    Some(SocketEntry { bound_addr: Some(addr), bound_port: port, ..entry }),
                );
                Ok(())
            },
            Err(e) => Err(e),
        }
    }
}

/// Bind exclusivity, seen from one bound socket: let slot `i` hold a live
/// TCP or UDP socket bound to `(addr, port)` with `port != 0`. A second bind
/// to the identical pair is refused unless reuse-address is enabled on both
/// sides; with it enabled on both sides, and no other live socket in the
/// way, the second bind is admitted.
pub proof fn lemma_bind_exclusive(
    table: Seq<Option<SocketEntry>>,
    i: int,
    addr: Ipv4Addr,
    port: u16,
    reuse: bool,
)
    requires
        0 <= i < table.len(),
        table[i] is Some,
        table[i]->Some_0.kind != SocketKind::Dns,
        table[i]->Some_0.bound_addr == Some(addr),
        table[i]->Some_0.bound_port == port,
        port != 0,
    ensures
        !(reuse && table[i]->Some_0.options.reuse_addr) ==> !bind_ok(table, addr, port, reuse),
        (reuse && table[i]->Some_0.options.reuse_addr && (forall|j: int|
            0 <= j < table.len() && j != i ==> match #[trigger] table[j] {
                Some(e) => !denies_bind(e, addr, port, reuse),
                None => true,
            })) ==> bind_ok(table, addr, port, reuse),
{
}

/// An ephemeral bind never conflicts: whatever is bound concurrently,
/// `port == 0` is admitted.
pub proof fn lemma_ephemeral_bind_free(
    table: Seq<Option<SocketEntry>>,
    addr: Ipv4Addr,
    reuse: bool,
)
    ensures
        bind_ok(table, addr, 0u16, reuse),
{
}

} // verus!
