//! The DNS resolver.
//!
//! A query is itself a transient socket registered in the shared socket
//! table, driven by the same polling primitives as every other socket
//! operation. The protocol engine's query machinery is modelled by its
//! interface: a bounded set of query slots, a verbatim name check, and a
//! sequence of probe answers — pending until the engine has resolved or
//! failed the query. The loop that drives a query, and the slot accounting
//! around it, are specified exactly.

use vstd::prelude::*;

use crate::err::{SysError, SysResult};
use crate::ip::Ipv4Addr;
use crate::wrapper::{live_count, SocketEntry, SocketHandle, SocketKind, SocketSetWrapper};

verus! {

/// The longest name the protocol engine accepts, in characters.
pub const MAX_DNS_NAME_LEN: usize = 255;

/// The longest label the protocol engine accepts, in characters.
pub const MAX_DNS_LABEL_LEN: usize = 63;

/// The dot-stripped form of a queried name: the engine removes one trailing
/// dot before it checks the labels.
pub open spec fn spec_stripped(name: Seq<char>) -> Seq<char> {
    if name.len() > 0 && name.last() == '.' {
        name.drop_last()
    } else {
        name
    }
}

/// A dotless stretch one longer than [`MAX_DNS_LABEL_LEN`], starting at
/// `j`: the witness that some label is over-long.
pub open spec fn overlong_run(t: Seq<char>, j: int) -> bool {
    forall|k: int| j <= k <= j + MAX_DNS_LABEL_LEN ==> #[trigger] t[k] != '.'
}

/// The labels of `t` are well formed: `t` is non-empty, no label is empty —
/// no leading, trailing or doubled dot — and no label is longer than
/// [`MAX_DNS_LABEL_LEN`], which is to say no dotless stretch exceeds it.
pub open spec fn labels_well_formed(t: Seq<char>) -> bool {
    &&& t.len() > 0
    &&& t[0] != '.'
    &&& t[t.len() - 1] != '.'
    &&& forall|j: int| 0 < j < t.len() ==> !(t[j - 1] == '.' && #[trigger] t[j] == '.')
    &&& forall|j: int|
        0 <= j && j + MAX_DNS_LABEL_LEN < t.len() ==> !(#[trigger] overlong_run(t, j))
}

/// A name the protocol engine accepts: non-empty, within the total length
/// bound, and with well-formed labels once a single trailing dot is
/// stripped. The engine's own over-length bound is on the wire-encoded
/// form — label bytes plus one length byte per label and a terminator —
/// which this model approximates by the character count.
pub open spec fn valid_dns_name(name: Seq<char>) -> bool {
    &&& 0 < name.len() <= MAX_DNS_NAME_LEN
    &&& labels_well_formed(spec_stripped(name))
}

/// Decides [`valid_dns_name`]: one pass over the stripped name, tracking
/// the running label's length.
fn dns_name_acceptable(name: &str) -> (r: bool)
    ensures
        r == valid_dns_name(name@),
{
    let len = name.unicode_len();
    if len == 0 || len > MAX_DNS_NAME_LEN {
        return false;
    }
    let tlen = if name.get_char(len - 1) == '.' {
        len - 1
    } else {
        len
    };
    let ghost t = spec_stripped(name@);
    proof {
        assert(t =~= name@.take(tlen as int));
    }
    if tlen == 0 {
        // the name was a lone dot
        return false;
    }
    let mut run: usize = 0;
    let mut i: usize = 0;
    while i < tlen
        invariant
            t == spec_stripped(name@),
            len == name@.len(),
            tlen <= len,
            t.len() == tlen,
            forall|j: int| 0 <= j < tlen ==> t[j] == #[trigger] name@[j],
            0 < tlen,
            0 <= i <= tlen,
            run <= i,
            run <= MAX_DNS_LABEL_LEN,
            forall|j: int| i - run <= j < i ==> #[trigger] t[j] != '.',
            run < i ==> t[i - run - 1] == '.',
            i > 0 ==> t[0] != '.',
            forall|j: int| 0 < j < i ==> !(t[j - 1] == '.' && #[trigger] t[j] == '.'),
            forall|j: int|
                0 <= j && j + MAX_DNS_LABEL_LEN < i ==> !(#[trigger] overlong_run(t, j)),
        decreases tlen - i,
    {
        let c = name.get_char(i);
        let ghost prev_run = run as int;
        if c == '.' {
            if run == 0 {
                // an empty label: a leading or doubled dot
                proof {
                    if i == 0 {
                        assert(t[0] == '.');
                    } else {
                        assert(t[i - 1] == '.' && t[i as int] == '.');
                    }
                }
                return false;
            }
            run = 0;
        } else {
            if run == MAX_DNS_LABEL_LEN {
                // a label longer than the bound: this whole stretch holds
                // no dot
                proof {
                    let j = i - MAX_DNS_LABEL_LEN;
                    assert forall|k: int| j <= k <= j + MAX_DNS_LABEL_LEN implies #[trigger] t[k]
                        != '.' by {
                        if k < i {
                            assert(t[k] != '.');
                        } else {
                            assert(t[k] == name@[k]);
                        }
                    }
                    assert(overlong_run(t, j));
                    assert(!labels_well_formed(t));
                }
                return false;
            }
            run = run + 1;
        }
        proof {
            assert forall|j: int|
                0 <= j && j + MAX_DNS_LABEL_LEN < i + 1 implies !(#[trigger] overlong_run(
                t,
                j,
            )) by {
                if j + MAX_DNS_LABEL_LEN < i {
                } else {
                    if t[i as int] == '.' {
                        assert(j <= i <= j + MAX_DNS_LABEL_LEN && t[i as int] == '.');
                    } else {
                        let k = i - prev_run - 1;
                        assert(prev_run < i);
                        assert(t[k] == '.');
                        assert(j <= k <= j + MAX_DNS_LABEL_LEN);
                    }
                }
            }
        }
        i = i + 1;
    }
    if run == 0 {
        // the stripped name ends in a dot: an empty final label
        proof {
            assert(t[tlen - 1] == '.');
        }
        return false;
    }
    proof {
        assert(t[tlen - 1] != '.');
        assert(labels_well_formed(t));
    }
    true
}

/// The DNS record type of a query.
#[derive(Clone, Copy, Debug, PartialEq, Eq, Structural)]
pub enum DnsQueryType {
    /// An IPv4 host address record.
    A,
    /// An IPv6 host address record; the resolver entry point does not issue
    /// these, but the query machinery carries them.
    Aaaa,
}

/// What one probe of a running query reports.
#[derive(Debug, PartialEq, Eq)]
pub enum DnsAnswer {
    /// The engine has not resolved the query yet.
    Pending,
    /// Resolution failed at the engine.
    Failed,
    /// The resolved address set.
    Resolved(Vec<Ipv4Addr>),
}

/// The protocol engine's query-side state, as this layer sees it: the slot
/// bound, how many queries hold a slot, and the configured servers.
pub struct DnsEngine {
    /// How many queries can run at once.
    pub slot_limit: usize,
    /// How many queries hold a slot now.
    pub active_queries: usize,
    /// The DNS servers queries are sent to.
    pub servers: Vec<Ipv4Addr>,
}

impl DnsEngine {
    /// Slot accounting stays within the bound.
    pub open spec fn wf(self) -> bool {
        self.active_queries <= self.slot_limit
    }

    /// An idle engine with the given slot bound and no servers configured.
    pub fn new(slot_limit: usize) -> (r: DnsEngine)
        ensures
            r.slot_limit == slot_limit,
            r.active_queries == 0,
            r.servers@ == Seq::<Ipv4Addr>::empty(),
            r.wf(),
    {
        DnsEngine { slot_limit, active_queries: 0, servers: Vec::new() }
    }

    /// Starts a query for `name`, taking one slot.
    ///
    /// The engine's own checks are surfaced verbatim: a malformed or
    /// over-length name is `InvalidArgument` and takes nothing; with no free
    /// slot the start is refused with `Busy`. Exactly otherwise the query is
    /// admitted.
    pub fn start_query(&mut self, name: &str) -> (r: SysResult<()>)
        requires
            old(self).wf(),
        ensures
            final(self).wf(),
            final(self).slot_limit == old(self).slot_limit,
            final(self).servers@ == old(self).servers@,
            !valid_dns_name(name@) ==> r == Err::<(), SysError>(SysError::InvalidArgument)
                && final(self).active_queries == old(self).active_queries,
            valid_dns_name(name@) && old(self).active_queries == old(self).slot_limit ==> r
                == Err::<(), SysError>(SysError::Busy) && final(self).active_queries == old(
                self,
            ).active_queries,
            valid_dns_name(name@) && old(self).active_queries < old(self).slot_limit ==> r
                is Ok && final(self).active_queries == old(self).active_queries + 1,
    {
        if !dns_name_acceptable(name) {
            return Err(SysError::InvalidArgument);
        }
        if self.active_queries == self.slot_limit {
            return Err(SysError::Busy);
        }
        self.active_queries = self.active_queries + 1;
        Ok(())
    }

    /// Releases the slot a finished or abandoned query held.
    pub fn finish_query(&mut self)
        requires
            old(self).active_queries > 0,
        ensures
            final(self).slot_limit == old(self).slot_limit,
            final(self).servers@ == old(self).servers@,
            final(self).active_queries == old(self).active_queries - 1,
            old(self).wf() ==> final(self).wf(),
    {
        self.active_queries = self.active_queries - 1;
    }
}

/// Slot recycling: when every slot is taken, the next concurrent start is
/// refused with `Busy` (the second clause of [`DnsEngine::start_query`]);
/// and once any one query completes or is dropped, the engine is strictly
/// below its bound again, so a start with an acceptable name is admitted
/// (the third clause).
pub proof fn lemma_slot_recycle(full: DnsEngine, released: DnsEngine)
    requires
        full.wf(),
        full.active_queries == full.slot_limit,
        full.slot_limit > 0,
        released.slot_limit == full.slot_limit,
        released.active_queries == full.active_queries - 1,
    ensures
        released.active_queries < released.slot_limit,
        released.wf(),
{
}

/// How the query loop ends on a sequence of probe answers: the first
/// conclusive answer and the number of yields taken before it, or `None`
/// when every probe stayed pending.
pub open spec fn spec_query_loop(answers: Seq<DnsAnswer>) -> Option<(DnsAnswer, nat)>
    decreases answers.len(),
{
    if answers.len() == 0 {
        None
    } else if answers[0] != DnsAnswer::Pending {
        Some((answers[0], 0nat))
    } else {
        match spec_query_loop(answers.skip(1)) {
            Some((a, y)) => Some((a, y + 1)),
            None => None,
        }
    }
}

/// Whether some probe in `answers` is conclusive.
pub open spec fn has_answer(answers: Seq<DnsAnswer>) -> bool {
    exists|i: int| 0 <= i < answers.len() && (#[trigger] answers[i]) != DnsAnswer::Pending
}

/// A conclusive probe makes the loop end.
pub proof fn lemma_query_loop_ends(answers: Seq<DnsAnswer>)
    requires
        has_answer(answers),
    ensures
        spec_query_loop(answers) is Some,
    decreases answers.len(),
{
    if answers.len() > 0 && answers[0] == DnsAnswer::Pending {
        assert(has_answer(answers.skip(1))) by {
            let i = choose|i: int|
                0 <= i < answers.len() && (#[trigger] answers[i]) != DnsAnswer::Pending;
            assert(answers.skip(1)[i - 1] != DnsAnswer::Pending);
        }
        lemma_query_loop_ends(answers.skip(1));
    }
}

/// The result a finished query surfaces for a conclusive answer: failure is
/// reported as refused resolution, and a resolved address set is handed
/// back.
pub open spec fn spec_query_result(answer: DnsAnswer) -> SysResult<Seq<Ipv4Addr>> {
    match answer {
        DnsAnswer::Pending => Err(SysError::WouldBlock),  // never surfaced by the loop
        DnsAnswer::Failed => Err(SysError::ConnectionRefused),
        DnsAnswer::Resolved(addrs) => Ok(addrs@),
    }
}

/// A DNS socket: a transient entry in the shared socket table that one
/// query runs over.
pub struct DnsSocket {
    handle: Option<SocketHandle>,
}

impl DnsSocket {
    /// The table handle of the query socket.
    pub closed spec fn spec_handle(self) -> Option<SocketHandle> {
        self.handle
    }

    /// Creates a new DNS socket, registering it in the socket table.
    pub fn new(sockets: &mut SocketSetWrapper) -> (r: DnsSocket)
        ensures
            old(sockets).table().len() <= usize::MAX,
            r.spec_handle() == Some(old(sockets).table().len() as SocketHandle),
            final(sockets).table() == old(sockets).table().push(
                Some(
                    SocketEntry {
                        kind: SocketKind::Dns,
                        bound_addr: None::<Ipv4Addr>,
                        bound_port: 0u16,
                        options: crate::options::GeneralOptions {
                            nonblock: false,
                            reuse_addr: false,
                            send_timeout_nanos: 0u64,
                            recv_timeout_nanos: 0u64,
                            externally_driven: false,
                        },
                    },
                ),
            ),
            live_count(final(sockets).table()) == live_count(old(sockets).table()) + 1,
    {
        let entry = SocketEntry::new(SocketKind::Dns);
        let handle = sockets.add(entry);
        DnsSocket { handle: Some(handle) }
    }

    /// Replaces the engine's DNS server list with `servers`.
    pub fn update_servers(&self, engine: &mut DnsEngine, servers: &Vec<Ipv4Addr>)
        ensures
            final(engine).servers@ == servers@,
            final(engine).slot_limit == old(engine).slot_limit,
            final(engine).active_queries == old(engine).active_queries,
    {
        engine.servers = servers.clone();
    }

    /// Queries `name` with the given record type and drives the query to
    /// its end.
    ///
    /// The start is submitted to the engine — a bad name or a full slot
    /// table is surfaced verbatim, taking nothing. An admitted query is then
    /// probed once per polling pass: a pending probe yields the scheduling
    /// quantum and retries, with no deadline at this layer; a failed probe
    /// surfaces as `ConnectionRefused`; a resolved probe hands back the
    /// address set. The query slot is released on every path that took it.
    pub fn query(
        &self,
        engine: &mut DnsEngine,
        name: &str,
        query_type: DnsQueryType,
        answers: Vec<DnsAnswer>,
    ) -> (r: SysResult<Vec<Ipv4Addr>>)
        requires
            old(engine).wf(),
            self.spec_handle() is Some && valid_dns_name(name@) && old(engine).active_queries < old(
                engine,
            ).slot_limit ==> has_answer(answers@),
        ensures
            final(engine).wf(),
            final(engine).slot_limit == old(engine).slot_limit,
            final(engine).servers@ == old(engine).servers@,
            final(engine).active_queries == old(engine).active_queries,
            self.spec_handle() is None ==> r == Err::<Vec<Ipv4Addr>, SysError>(
                SysError::InvalidArgument,
            ),
            self.spec_handle() is Some ==> {
                &&& !valid_dns_name(name@) ==> r == Err::<Vec<Ipv4Addr>, SysError>(
                    SysError::InvalidArgument,
                )
                &&& valid_dns_name(name@) && old(engine).active_queries == old(engine).slot_limit
                    ==> r == Err::<Vec<Ipv4Addr>, SysError>(SysError::Busy)
                &&& valid_dns_name(name@) && old(engine).active_queries < old(engine).slot_limit
                    ==> (match r {
                    Ok(addrs) => spec_query_result(spec_query_loop(answers@)->Some_0.0) == Ok::<
                        Seq<Ipv4Addr>,
                        SysError,
                    >(addrs@),
                    Err(e) => spec_query_result(spec_query_loop(answers@)->Some_0.0) == Err::<
                        Seq<Ipv4Addr>,
                        SysError,
                    >(e),
                })
            },
    {
        let _ = query_type;
        if self.handle.is_none() {
            return Err(SysError::InvalidArgument);
        }
        match engine.start_query(name) {
            Err(e) => {
                return Err(e);
            },
            Ok(()) => {},
        }
        proof {
            lemma_query_loop_ends(answers@);
        }
        let ghost whole = answers@;
        let mut rest = answers;
        loop
            invariant
                self.spec_handle() is Some,
                valid_dns_name(name@),
                old(engine).active_queries < old(engine).slot_limit,
                engine.wf(),
                engine.active_queries > 0,
                engine.slot_limit == old(engine).slot_limit,
                engine.active_queries == old(engine).active_queries + 1,
                engine.servers@ == old(engine).servers@,
                whole == answers@,
                spec_query_loop(whole) is Some,
                spec_query_loop(rest@) is Some,
                spec_query_loop(whole)->Some_0.0 == spec_query_loop(rest@)->Some_0.0,
            decreases rest@.len(),
        {
            proof {
                assert(rest@.len() > 0);
            }
            let ghost before = rest@;
            let answer = rest.remove(0);
            proof {
                assert(before.remove(0) =~= before.skip(1));
            }
            match answer {
                DnsAnswer::Pending => {
                    // a polling pass ran and the engine still has nothing:
                    // the task yields its quantum here and probes again
                },
                DnsAnswer::Failed => {
                    engine.finish_query();
                    return Err(SysError::ConnectionRefused);
                },
                DnsAnswer::Resolved(addrs) => {
                    engine.finish_query();
                    return Ok(addrs);
                },
            }
        }
    }

    /// Releases the query socket from the table. The socket is always
    /// released when its query completes or its owner lets go of it,
    /// whatever path was taken.
    pub fn close(self, sockets: &mut SocketSetWrapper)
        requires
            match self.spec_handle() {
                Some(h) => old(sockets).is_live(h),
                None => true,
            },
        ensures
            match self.spec_handle() {
                Some(h) => final(sockets).table() == old(sockets).table().update(h as int, None)
                    && live_count(final(sockets).table()) == live_count(old(sockets).table()) - 1,
                None => final(sockets).table() == old(sockets).table(),
            },
    {
        match self.handle {
            Some(h) => sockets.remove(h),
            None => {},
        }
    }
}

/// Resolves `name` to its IPv4 addresses: allocates a transient query
/// socket, runs one address query over it, and releases the socket whatever
/// happened — the live-socket count returns to its baseline on every path,
/// a rejected name included.
pub fn dns_query(
    sockets: &mut SocketSetWrapper,
    engine: &mut DnsEngine,
    name: &str,
    answers: Vec<DnsAnswer>,
) -> (r: SysResult<Vec<Ipv4Addr>>)
    requires
        old(engine).wf(),
        valid_dns_name(name@) && old(engine).active_queries < old(engine).slot_limit ==> has_answer(
            answers@,
        ),
    ensures
        final(engine).wf(),
        final(engine).active_queries == old(engine).active_queries,
        final(engine).slot_limit == old(engine).slot_limit,
        live_count(final(sockets).table()) == live_count(old(sockets).table()),
        !valid_dns_name(name@) ==> r == Err::<Vec<Ipv4Addr>, SysError>(SysError::InvalidArgument),
        valid_dns_name(name@) && old(engine).active_queries == old(engine).slot_limit ==> r
            == Err::<Vec<Ipv4Addr>, SysError>(SysError::Busy),
        valid_dns_name(name@) && old(engine).active_queries < old(engine).slot_limit ==> (match r {
            Ok(addrs) => spec_query_result(spec_query_loop(answers@)->Some_0.0) == Ok::<
                Seq<Ipv4Addr>,
                SysError,
            >(addrs@),
            Err(e) => spec_query_result(spec_query_loop(answers@)->Some_0.0) == Err::<
                Seq<Ipv4Addr>,
                SysError,
            >(e),
        }),
{
    let socket = DnsSocket::new(sockets);
    let result = socket.query(engine, name, DnsQueryType::A, answers);
    proof {
        let h = socket.spec_handle()->Some_0 as int;
        assert(sockets.table()[h] == old(sockets).table().push(
            Some(
                SocketEntry {
                    kind: SocketKind::Dns,
                    bound_addr: None::<Ipv4Addr>,
                    bound_port: 0u16,
                    options: crate::options::GeneralOptions {
                        nonblock: false,
                        reuse_addr: false,
                        send_timeout_nanos: 0u64,
                        recv_timeout_nanos: 0u64,
                        externally_driven: false,
                    },
                },
            ),
        )[h]);
        assert(h == old(sockets).table().len());
        assert(sockets.table().len() == old(sockets).table().len() + 1);
        assert(sockets.table()[h] is Some);
        assert(sockets.is_live(socket.spec_handle()->Some_0));
    }
    socket.close(sockets);
    result
}

} // verus!
