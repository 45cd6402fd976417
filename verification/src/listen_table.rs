//! The listen table.
//!
//! Tracks passive-open sockets and their pending-connection backlogs: one
//! entry per listening port, each holding a bounded FIFO queue of completed
//! but unaccepted connections. Overflow is rejected, never grown away;
//! accepting from an empty backlog reports the transient-busy class so the
//! caller can drive it through the blocking engine like any other socket
//! operation.

use vstd::prelude::*;

use crate::err::{SysError, SysResult};
use crate::wrapper::SocketHandle;

verus! {

/// One listening port's backlog.
pub struct ListenEntry {
    /// The listening port.
    pub port: u16,
    /// The backlog bound fixed at `listen` time.
    pub capacity: usize,
    /// Completed passive-open connections, oldest first.
    pub backlog: Vec<SocketHandle>,
}

impl ListenEntry {
    /// The entry keeps its backlog within its bound.
    pub open spec fn wf(self) -> bool {
        self.backlog@.len() <= self.capacity
    }
}

/// The listen table: at most one entry per port.
pub struct ListenTable {
    entries: Vec<ListenEntry>,
}

impl ListenTable {
    /// The table's entries.
    pub closed spec fn entries_seq(self) -> Seq<ListenEntry> {
        self.entries@
    }

    /// Well-formedness: ports are unique and every backlog respects its
    /// bound.
    pub open spec fn wf(self) -> bool {
        &&& forall|i: int|
            0 <= i < self.entries_seq().len() ==> (#[trigger] self.entries_seq()[i]).wf()
        &&& forall|i: int, j: int|
            0 <= i < j < self.entries_seq().len() ==> (#[trigger] self.entries_seq()[i]).port != (
            #[trigger] self.entries_seq()[j]).port
    }

    /// The index of `port`'s entry, if the port is listening.
    pub open spec fn index_of(self, port: u16) -> Option<int> {
        if exists|i: int| 0 <= i < self.entries_seq().len() && (#[trigger] self.entries_seq()[i]).port == port {
            Some(
                choose|i: int|
                    0 <= i < self.entries_seq().len() && (#[trigger] self.entries_seq()[i]).port
                        == port,
            )
        } else {
            None
        }
    }

    /// Whether `port` is listening.
    pub open spec fn is_listening(self, port: u16) -> bool {
        self.index_of(port) is Some
    }

    /// An empty listen table.
    pub fn new() -> (r: ListenTable)
        ensures
            r.entries_seq() == Seq::<ListenEntry>::empty(),
            r.wf(),
    {
        ListenTable { entries: Vec::new() }
    }

    /// Finds the slot serving `port`.
    fn find(&self, port: u16) -> (r: Option<usize>)
        requires
            self.wf(),
        ensures
            match r {
                Some(i) => i < self.entries_seq().len() && self.entries_seq()[i as int].port
                    == port && self.index_of(port) == Some(i as int),
                None => !self.is_listening(port),
            },
    {
        let n = self.entries.len();
        let mut i: usize = 0;
        while i < n
            invariant
                n == self.entries_seq().len(),
                0 <= i <= n,
                self.wf(),
                forall|j: int| 0 <= j < i ==> (#[trigger] self.entries_seq()[j]).port != port,
            decreases n - i,
        {
            if self.entries[i].port == port {
                return Some(i);
            }
            i = i + 1;
        }
        None
    }

    /// Starts listening on `port` with the given backlog bound. A port
    /// already listening is refused with `AddressInUse`.
    pub fn listen(&mut self, port: u16, backlog_capacity: usize) -> (r: SysResult<()>)
        requires
            old(self).wf(),
        ensures
            final(self).wf(),
            r is Ok <==> !old(self).is_listening(port),
            r is Err ==> r == Err::<(), SysError>(SysError::AddressInUse) && final(self).entries_seq()
                == old(self).entries_seq(),
            r is Ok ==> final(self).entries_seq().len() == old(self).entries_seq().len() + 1
                && final(self).entries_seq().last().port == port
                && final(self).entries_seq().last().capacity == backlog_capacity
                && final(self).entries_seq().last().backlog@ == Seq::<SocketHandle>::empty()
                && final(self).entries_seq().drop_last() == old(self).entries_seq(),
            final(self).is_listening(port),
    {
        match self.find(port) {
            Some(_) => Err(SysError::AddressInUse),
            None => {
                self.entries.push(ListenEntry { port, capacity: backlog_capacity, backlog: Vec::new() });
                proof {
                    assert(self.entries_seq().drop_last() =~= old(self).entries_seq());
                    let n = self.entries_seq().len() - 1;
                    assert(self.entries_seq()[n].port == port);
                }
                Ok(())
            },
        }
    }

    /// Enqueues a completed passive-open connection on `port`'s backlog.
    /// A port that is not listening is refused with `InvalidArgument`; a
    /// backlog at its bound rejects the connection with `Busy` — it never
    /// blocks and never grows.
    pub fn push(&mut self, port: u16, connection: SocketHandle) -> (r: SysResult<()>)
        requires
            old(self).wf(),
        ensures
            final(self).wf(),
            !old(self).is_listening(port) ==> r == Err::<(), SysError>(SysError::InvalidArgument)
                && final(self).entries_seq() == old(self).entries_seq(),
            old(self).is_listening(port) ==> {
                let i = old(self).index_of(port)->Some_0;
                let e = old(self).entries_seq()[i];
                if e.backlog@.len() >= e.capacity {
                    r == Err::<(), SysError>(SysError::Busy) && final(self).entries_seq() == old(
                        self,
                    ).entries_seq()
                } else {
                    &&& r is Ok
                    &&& final(self).entries_seq().len() == old(self).entries_seq().len()
                    &&& forall|j: int|
                        0 <= j < old(self).entries_seq().len() && j != i ==> #[trigger] final(self).entries_seq()[j] == old(self).entries_seq()[j]
                    &&& final(self).entries_seq()[i].port == e.port
                    &&& final(self).entries_seq()[i].capacity == e.capacity
                    &&& final(self).entries_seq()[i].backlog@ == e.backlog@.push(connection)
                }
            },
    {
        match self.find(port) {
            None => Err(SysError::InvalidArgument),
            Some(i) => {
                if self.entries[i].backlog.len() >= self.entries[i].capacity {
                    Err(SysError::Busy)
                } else {
                    let mut e = self.entries.remove(i);
                    e.backlog.push(connection);
                    self.entries.insert(i, e);
                    proof {
                        assert forall|j: int|
                            0 <= j < old(self).entries_seq().len() && j != i implies self.entries@[j]
                            == old(self).entries@[j] by {
                            if j < i {
                            } else {
                            }
                        }
                    }
                    Ok(())
                }
            },
        }
    }

    /// Pops the oldest pending connection from `port`'s backlog, FIFO. A
    /// port that is not listening is refused with `InvalidArgument`; an
    /// empty backlog reports `WouldBlock`, the transient-busy class.
    pub fn accept(&mut self, port: u16) -> (r: SysResult<SocketHandle>)
        requires
            old(self).wf(),
        ensures
            final(self).wf(),
            !old(self).is_listening(port) ==> r == Err::<SocketHandle, SysError>(
                SysError::InvalidArgument,
            ) && final(self).entries_seq() == old(self).entries_seq(),
            old(self).is_listening(port) ==> {
                let i = old(self).index_of(port)->Some_0;
                let e = old(self).entries_seq()[i];
                if e.backlog@.len() == 0 {
                    r == Err::<SocketHandle, SysError>(SysError::WouldBlock) && final(self).entries_seq() == old(self).entries_seq()
                } else {
                    &&& r == Ok::<SocketHandle, SysError>(e.backlog@[0])
                    &&& final(self).entries_seq().len() == old(self).entries_seq().len()
                    &&& forall|j: int|
                        0 <= j < old(self).entries_seq().len() && j != i ==> #[trigger] final(self).entries_seq()[j] == old(self).entries_seq()[j]
                    &&& final(self).entries_seq()[i].port == e.port
                    &&& final(self).entries_seq()[i].capacity == e.capacity
                    &&& final(self).entries_seq()[i].backlog@ == e.backlog@.drop_first()
                }
            },
    {
        match self.find(port) {
            None => Err(SysError::InvalidArgument),
            Some(i) => {
                if self.entries[i].backlog.len() == 0 {
                    Err(SysError::WouldBlock)
                } else {
                    let mut e = self.entries.remove(i);
                    let conn = e.backlog.remove(0);
                    self.entries.insert(i, e);
                    proof {
                        assert(old(self).entries_seq()[i as int].backlog@.remove(0) =~= old(
                            self,
                        ).entries_seq()[i as int].backlog@.drop_first());
                    }
                    Ok(conn)
                }
            },
        }
    }

    /// Stops listening on `port`, discarding its pending connections. A
    /// port that is not listening is refused with `InvalidArgument`.
    pub fn close(&mut self, port: u16) -> (r: SysResult<()>)
        requires
            old(self).wf(),
        ensures
            final(self).wf(),
            r is Ok <==> old(self).is_listening(port),
            !final(self).is_listening(port),
            r is Err ==> r == Err::<(), SysError>(SysError::InvalidArgument) && final(self).entries_seq() == old(self).entries_seq(),
            r is Ok ==> final(self).entries_seq() == old(self).entries_seq().remove(
                old(self).index_of(port)->Some_0,
            ),
    {
        match self.find(port) {
            None => Err(SysError::InvalidArgument),
            Some(i) => {
                self.entries.remove(i);
                Ok(())
            },
        }
    }
}

} // verus!
