//! The polling service.
//!
//! The service owns the router (and through it the device set) and advances
//! protocol state by pumping packets between the devices and the protocol
//! engine: received packets are drained into the engine's ingress queue, and
//! every egress packet the engine produced is dispatched through the router
//! to its device, until a pass makes no further progress. The blocking
//! engine calls this before every attempt, so queued progress becomes
//! visible whoever caused it.
//!
//! Polling never fails: transient device errors (a full ring, no packet) are
//! absorbed here; reliability is the protocol engine's business.

use vstd::prelude::*;
use vstd::seq_lib::*;

use crate::device::Device;
use crate::ip::{Ipv4Addr, Ipv4Cidr};
use crate::router::{DeviceId, Router};

verus! {

/// The packet queues shared with the protocol engine: what the devices
/// delivered to it, and what it wants sent.
pub struct PacketQueues {
    /// Packets drained from the devices, oldest first, each with the device
    /// it arrived on. Only the protocol engine consumes this.
    pub ingress: Vec<(DeviceId, Vec<u8>)>,
    /// Packets produced by the protocol engine, each with its destination
    /// address, awaiting dispatch.
    pub egress: Vec<(Ipv4Addr, Vec<u8>)>,
}

impl PacketQueues {
    /// Empty queues.
    pub fn new() -> (r: PacketQueues)
        ensures
            r.ingress@ == Seq::<(DeviceId, Vec<u8>)>::empty(),
            r.egress@ == Seq::<(Ipv4Addr, Vec<u8>)>::empty(),
    {
        PacketQueues { ingress: Vec::new(), egress: Vec::new() }
    }
}

/// The packets still waiting on the devices, summed over the device set.
pub open spec fn total_pending(devices: Seq<Device>) -> nat
    decreases devices.len(),
{
    if devices.len() == 0 {
        0nat
    } else {
        total_pending(devices.drop_last()) + devices.last().pending_incoming().len()
    }
}

/// The packets still waiting on the devices, flattened in device order,
/// each tagged with the device it waits on. This is exactly what one drain
/// pass appends to the engine's ingress queue.
pub open spec fn pending_tagged(devices: Seq<Device>) -> Seq<(DeviceId, Seq<u8>)>
    decreases devices.len(),
{
    if devices.len() == 0 {
        Seq::empty()
    } else {
        pending_tagged(devices.drop_last()) + devices.last().pending_incoming().map(
            |k: int, p: Seq<u8>| (((devices.len() - 1) as DeviceId), p),
        )
    }
}

/// When every device has nothing pending, nothing is pending in total.
pub proof fn lemma_total_pending_zero(devices: Seq<Device>)
    requires
        forall|i: int|
            0 <= i < devices.len() ==> (#[trigger] devices[i]).pending_incoming().len() == 0,
    ensures
        total_pending(devices) == 0,
    decreases devices.len(),
{
    if devices.len() > 0 {
        lemma_total_pending_zero(devices.drop_last());
    }
}

/// The total over one more device grows by that device's pending count.
pub proof fn lemma_total_pending_take_step(devices: Seq<Device>, i: int)
    requires
        0 <= i < devices.len(),
    ensures
        total_pending(devices.take(i + 1)) == total_pending(devices.take(i)) + devices[
            i
        ].pending_incoming().len(),
{
    assert(devices.take(i + 1).drop_last() =~= devices.take(i));
    assert(devices.take(i + 1).last() == devices[i]);
}

/// Replacing one device changes the total by that device's difference.
pub proof fn lemma_total_pending_update(devices: Seq<Device>, i: int, d: Device)
    requires
        0 <= i < devices.len(),
    ensures
        total_pending(devices.update(i, d)) + devices[i].pending_incoming().len()
            == total_pending(devices) + d.pending_incoming().len(),
    decreases devices.len(),
{
    if i == devices.len() - 1 {
        assert(devices.update(i, d).drop_last() =~= devices.drop_last());
    } else {
        assert(devices.update(i, d).drop_last() =~= devices.drop_last().update(i, d));
        lemma_total_pending_update(devices.drop_last(), i, d);
    }
}

/// The flattened pending list counts exactly the pending total.
pub proof fn lemma_pending_tagged_len(devices: Seq<Device>)
    ensures
        pending_tagged(devices).len() == total_pending(devices),
    decreases devices.len(),
{
    if devices.len() > 0 {
        lemma_pending_tagged_len(devices.drop_last());
    }
}

/// One more device appends its pending packets, tagged with its index.
pub proof fn lemma_pending_tagged_take_step(devices: Seq<Device>, i: int)
    requires
        0 <= i < devices.len(),
    ensures
        pending_tagged(devices.take(i + 1)) == pending_tagged(devices.take(i)) + devices[
            i
        ].pending_incoming().map(|k: int, p: Seq<u8>| ((i as DeviceId), p)),
{
    let t = devices.take(i + 1);
    assert(t.drop_last() =~= devices.take(i));
    assert(t.last() == devices[i]);
    assert(t.last().pending_incoming().map(
        |k: int, p: Seq<u8>| (((t.len() - 1) as DeviceId), p),
    ) =~= devices[i].pending_incoming().map(|k: int, p: Seq<u8>| ((i as DeviceId), p)));
}

/// One device's pending count never exceeds the total.
pub proof fn lemma_total_pending_elem(devices: Seq<Device>, j: int)
    requires
        0 <= j < devices.len(),
    ensures
        devices[j].pending_incoming().len() <= total_pending(devices),
    decreases devices.len(),
{
    if j < devices.len() - 1 {
        lemma_total_pending_elem(devices.drop_last(), j);
    }
}

/// The flattened pending list of an all-drained device set is empty.
pub proof fn lemma_pending_tagged_all_empty(devices: Seq<Device>)
    requires
        forall|j: int|
            0 <= j < devices.len() ==> (#[trigger] devices[j]).pending_incoming().len() == 0,
    ensures
        pending_tagged(devices) =~= Seq::<(DeviceId, Seq<u8>)>::empty(),
{
    lemma_total_pending_zero(devices);
    lemma_pending_tagged_len(devices);
}

/// With every other device drained, the flattened pending list is one
/// device's, tagged with its index.
pub proof fn lemma_pending_tagged_single(devices: Seq<Device>, i: int)
    requires
        0 <= i < devices.len(),
        forall|j: int|
            0 <= j < devices.len() && j != i ==> (#[trigger] devices[j]).pending_incoming().len()
                == 0,
    ensures
        pending_tagged(devices) =~= devices[i].pending_incoming().map(
            |k: int, p: Seq<u8>| ((i as DeviceId), p),
        ),
    decreases devices.len(),
{
    if i == devices.len() - 1 {
        lemma_pending_tagged_all_empty(devices.drop_last());
        assert(devices.last().pending_incoming().map(
            |k: int, p: Seq<u8>| (((devices.len() - 1) as DeviceId), p),
        ) =~= devices[i].pending_incoming().map(|k: int, p: Seq<u8>| ((i as DeviceId), p)));
    } else {
        assert(devices.last().pending_incoming().map(
            |k: int, p: Seq<u8>| (((devices.len() - 1) as DeviceId), p),
        ) =~= Seq::<(DeviceId, Seq<u8>)>::empty());
        lemma_pending_tagged_single(devices.drop_last(), i);
        assert(devices.drop_last()[i] == devices[i]);
    }
}

/// A prefix stays a prefix under appends at the far end.
pub proof fn lemma_prefix_push<A>(a: Seq<A>, b: Seq<A>, x: A)
    requires
        a.is_prefix_of(b),
    ensures
        a.is_prefix_of(b.push(x)),
{
    assert(b.push(x).subrange(0, a.len() as int) =~= b.subrange(0, a.len() as int));
}

/// What one drain pass or one dispatch leaves of a device: the variant, the
/// name and the sending ring's bounds never change, and a drain leaves an
/// Ethernet device's sending side untouched while it empties a loopback
/// ring entirely.
pub open spec fn keeps_identity(d0: Device, d1: Device) -> bool {
    &&& (d0 is Loopback <==> d1 is Loopback)
    &&& d1.device_name() == d0.device_name()
    &&& d1.outgoing_slots() == d0.outgoing_slots()
    &&& d1.outgoing_capacity() == d0.outgoing_capacity()
}

/// The service: the router with its devices, plus the interface's local
/// unicast addresses.
pub struct Service {
    /// The router, owning the device set.
    pub router: Router,
    /// The local unicast addresses configured on the interface.
    pub ip_addrs: Vec<Ipv4Cidr>,
}

impl Service {
    /// The service is well formed when its router is.
    pub open spec fn wf(self) -> bool {
        self.router.wf()
    }

    /// Builds a service around a router; no addresses configured yet.
    pub fn new(router: Router) -> (r: Service)
        ensures
            r.router == router,
            r.ip_addrs@ == Seq::<Ipv4Cidr>::empty(),
    {
        Service { router, ip_addrs: Vec::new() }
    }

    /// One-time address configuration at initialization. Must not run
    /// concurrently with polling — exclusive access enforces that here.
    pub fn update_ip_addrs(&mut self, addrs: Vec<Ipv4Cidr>)
        ensures
            final(self).ip_addrs == addrs,
            final(self).router == old(self).router,
    {
        self.ip_addrs = addrs;
    }

    /// Drains every device's pending packets into the engine's ingress
    /// queue: the appended entries are exactly the devices' pending
    /// packets, flattened in device order and tagged with their device.
    /// An Ethernet device's sending side is untouched; a loopback ring is
    /// left really empty.
    fn drain_devices(&mut self, queues: &mut PacketQueues)
        ensures
            final(self).router.rules@ == old(self).router.rules@,
            final(self).router.devices@.len() == old(self).router.devices@.len(),
            total_pending(final(self).router.devices@) == 0,
            final(queues).egress@ == old(queues).egress@,
            final(queues).ingress@.len() == old(queues).ingress@.len() + total_pending(
                old(self).router.devices@,
            ),
            forall|k: int|
                0 <= k < old(queues).ingress@.len() ==> final(queues).ingress@[k] == old(
                    queues,
                ).ingress@[k],
            forall|k: int|
                0 <= k < pending_tagged(old(self).router.devices@).len() ==> {
                    let e = #[trigger] final(queues).ingress@[old(queues).ingress@.len() + k];
                    (e.0, e.1@) == pending_tagged(old(self).router.devices@)[k]
                },
            forall|j: int|
                0 <= j < old(self).router.devices@.len() ==> {
                    let d0 = #[trigger] old(self).router.devices@[j];
                    let d1 = final(self).router.devices@[j];
                    &&& keeps_identity(d0, d1)
                    &&& (d0 is Ethernet ==> d1.pending_outgoing() == d0.pending_outgoing()
                        && d1.outgoing_occupied() == d0.outgoing_occupied())
                    &&& (d0 is Loopback ==> d1.pending_outgoing().len() == 0
                        && d1.outgoing_occupied() == 0)
                },
    {
        proof {
            assert(old(self).router.devices@.take(0) =~= Seq::<Device>::empty());
        }
        let ghost orig_devs = self.router.devices@;
        let ghost old_len = old(queues).ingress@.len();
        let n = self.router.devices.len();
        let mut i: usize = 0;
        while i < n
            invariant
                n == self.router.devices@.len(),
                n == orig_devs.len(),
                0 <= i <= n,
                orig_devs == old(self).router.devices@,
                old_len == old(queues).ingress@.len(),
                self.router.rules@ == old(self).router.rules@,
                forall|j: int|
                    0 <= j < i ==> (#[trigger] self.router.devices@[j]).pending_incoming().len()
                        == 0,
                forall|j: int|
                    0 <= j < i ==> {
                        let d0 = orig_devs[j];
                        let d1 = #[trigger] self.router.devices@[j];
                        &&& keeps_identity(d0, d1)
                        &&& (d0 is Ethernet ==> d1.pending_outgoing() == d0.pending_outgoing()
                            && d1.outgoing_occupied() == d0.outgoing_occupied())
                        &&& (d0 is Loopback ==> d1.pending_outgoing().len() == 0
                            && d1.outgoing_occupied() == 0)
                    },
                forall|j: int|
                    i <= j < n ==> (#[trigger] self.router.devices@[j]) == orig_devs[j],
                queues.egress@ == old(queues).egress@,
                queues.ingress@.len() == old_len + total_pending(orig_devs.take(i as int)),
                forall|k: int|
                    0 <= k < old_len ==> #[trigger] queues.ingress@[k] == old(queues).ingress@[k],
                forall|k: int|
                    0 <= k < pending_tagged(orig_devs.take(i as int)).len() ==> {
                        let e = #[trigger] queues.ingress@[old_len + k];
                        (e.0, e.1@) == pending_tagged(orig_devs.take(i as int))[k]
                    },
            decreases n - i,
        {
            let ghost devs_before = self.router.devices@;
            let ghost ingress_at_entry = queues.ingress@.len();
            let ghost ingress_snapshot = queues.ingress@;
            let mut d = self.router.devices.remove(i);
            let ghost d_orig = d;
            let ghost d_pend = d.pending_incoming();
            proof {
                assert(d_pend.skip(0) =~= d_pend);
                lemma_pending_tagged_len(orig_devs.take(i as int));
            }
            loop
                invariant
                    self.router.devices@ == devs_before.remove(i as int),
                    queues.egress@ == old(queues).egress@,
                    d.pending_incoming().len() <= d_pend.len(),
                    d.pending_incoming() == d_pend.skip(
                        d_pend.len() - d.pending_incoming().len(),
                    ),
                    queues.ingress@.len() == ingress_at_entry + d_pend.len()
                        - d.pending_incoming().len(),
                    forall|k: int|
                        0 <= k < ingress_at_entry ==> #[trigger] queues.ingress@[k]
                            == ingress_snapshot[k],
                    forall|k: int|
                        0 <= k < d_pend.len() - d.pending_incoming().len() ==> {
                            let e = #[trigger] queues.ingress@[ingress_at_entry + k];
                            e.0 == i && e.1@ == d_pend[k]
                        },
                    keeps_identity(d_orig, d),
                    d_orig is Ethernet ==> d.pending_outgoing() == d_orig.pending_outgoing()
                        && d.outgoing_occupied() == d_orig.outgoing_occupied(),
                ensures
                    self.router.devices@ == devs_before.remove(i as int),
                    d.pending_incoming().len() == 0,
                    queues.egress@ == old(queues).egress@,
                    queues.ingress@.len() == ingress_at_entry + d_pend.len(),
                    forall|k: int|
                        0 <= k < ingress_at_entry ==> #[trigger] queues.ingress@[k]
                            == ingress_snapshot[k],
                    forall|k: int|
                        0 <= k < d_pend.len() ==> {
                            let e = #[trigger] queues.ingress@[ingress_at_entry + k];
                            e.0 == i && e.1@ == d_pend[k]
                        },
                    keeps_identity(d_orig, d),
                    d_orig is Ethernet ==> d.pending_outgoing() == d_orig.pending_outgoing()
                        && d.outgoing_occupied() == d_orig.outgoing_occupied(),
                    d_orig is Loopback ==> d.pending_outgoing().len() == 0
                        && d.outgoing_occupied() == 0,
                decreases d.pending_incoming().len(),
            {
                let ghost consumed = d_pend.len() - d.pending_incoming().len();
                match d.recv() {
                    Some(packet) => {
                        proof {
                            assert(d_pend.skip(consumed as int)[0] == d_pend[consumed as int]);
                            assert(d_pend.skip(consumed as int).drop_first() =~= d_pend.skip(
                                consumed + 1,
                            ));
                        }
                        queues.ingress.push((i, packet));
                    },
                    None => {
                        break ;
                    },
                }
            }
            self.router.devices.insert(i, d);
            proof {
                assert(self.router.devices@ =~= devs_before.update(i as int, d));
                assert(d_pend == orig_devs[i as int].pending_incoming());
                lemma_total_pending_take_step(orig_devs, i as int);
                lemma_pending_tagged_take_step(orig_devs, i as int);
                lemma_pending_tagged_len(orig_devs.take(i + 1));
                let told = pending_tagged(orig_devs.take(i as int));
                let tagged_i = orig_devs[i as int].pending_incoming().map(
                    |k: int, p: Seq<u8>| ((i as DeviceId), p),
                );
                assert forall|k: int|
                    0 <= k < pending_tagged(orig_devs.take(i + 1)).len() implies {
                    let e = #[trigger] queues.ingress@[old_len + k];
                    (e.0, e.1@) == pending_tagged(orig_devs.take(i + 1))[k]
                } by {
                    if k < told.len() {
                        assert(pending_tagged(orig_devs.take(i + 1))[k] == told[k]);
                        assert(old_len + k < ingress_at_entry);
                        assert(queues.ingress@[old_len + k] == ingress_snapshot[old_len + k]);
                    } else {
                        let m = k - told.len();
                        assert(pending_tagged(orig_devs.take(i + 1))[k] == tagged_i[m]);
                        assert(tagged_i[m] == (
                            (i as DeviceId),
                            orig_devs[i as int].pending_incoming()[m],
                        ));
                        assert(ingress_at_entry == old_len + told.len());
                        assert(queues.ingress@[ingress_at_entry + m].0 == i
                            && queues.ingress@[ingress_at_entry + m].1@ == d_pend[m]);
                    }
                }
            }
            i = i + 1;
        }
        proof {
            assert(orig_devs.take(n as int) =~= orig_devs);
            lemma_total_pending_zero(self.router.devices@);
        }
    }

    /// Advances the protocol engine's traffic: drains every device into the
    /// ingress queue and dispatches every egress packet through the router
    /// to its device, repeating until a pass makes no further progress —
    /// packets a dispatch looped back onto a device are drained too.
    ///
    /// What the contract pins down: the egress queue empties and every
    /// device drains; the first entries appended to the ingress queue are
    /// exactly the packets the devices held on entry, in device order; an
    /// Ethernet device only ever gains outgoing packets, never loses or
    /// reorders them; and a single routed egress packet that its Ethernet
    /// device can accept really lands on that device. An egress packet with
    /// no matching route, or whose device ring cannot take it, is dropped
    /// here and never surfaces to socket callers.
    pub fn poll(&mut self, queues: &mut PacketQueues)
        requires
            old(self).wf(),
        ensures
            final(self).wf(),
            final(self).router.rules@ == old(self).router.rules@,
            final(self).router.devices@.len() == old(self).router.devices@.len(),
            final(queues).egress@.len() == 0,
            total_pending(final(self).router.devices@) == 0,
            final(queues).ingress@.len() >= old(queues).ingress@.len() + total_pending(
                old(self).router.devices@,
            ),
            forall|k: int|
                0 <= k < old(queues).ingress@.len() ==> final(queues).ingress@[k] == old(
                    queues,
                ).ingress@[k],
            forall|k: int|
                0 <= k < pending_tagged(old(self).router.devices@).len() ==> {
                    let e = #[trigger] final(queues).ingress@[old(queues).ingress@.len() + k];
                    (e.0, e.1@) == pending_tagged(old(self).router.devices@)[k]
                },
            forall|j: int|
                0 <= j < old(self).router.devices@.len() ==> {
                    let d0 = #[trigger] old(self).router.devices@[j];
                    let d1 = final(self).router.devices@[j];
                    &&& keeps_identity(d0, d1)
                    &&& (d0 is Ethernet ==> d0.pending_outgoing().is_prefix_of(
                        d1.pending_outgoing(),
                    ))
                },
            (old(queues).egress@.len() == 1 && {
                let dst = old(queues).egress@[0].0;
                let p = old(queues).egress@[0].1@;
                let routed = Router::spec_route(old(self).router.rules@, dst);
                &&& routed is Some
                &&& routed->Some_0.0 < old(self).router.devices@.len()
                &&& old(self).router.devices@[routed->Some_0.0 as int] is Ethernet
                &&& old(self).router.devices@[routed->Some_0.0 as int].can_accept(p)
            }) ==> {
                let dev = Router::spec_route(
                    old(self).router.rules@,
                    old(queues).egress@[0].0,
                )->Some_0.0 as int;
                final(self).router.devices@[dev].pending_outgoing() == old(
                    self,
                ).router.devices@[dev].pending_outgoing().push(old(queues).egress@[0].1@)
            },
            (old(queues).egress@.len() == 1 && {
                let dst = old(queues).egress@[0].0;
                let p = old(queues).egress@[0].1@;
                let routed = Router::spec_route(old(self).router.rules@, dst);
                &&& routed is Some
                &&& routed->Some_0.0 < old(self).router.devices@.len()
                &&& old(self).router.devices@[routed->Some_0.0 as int] is Loopback
                &&& old(self).router.devices@[routed->Some_0.0 as int].outgoing_slots() >= 1
                &&& p.len() <= old(self).router.devices@[
                    routed->Some_0.0 as int
                ].outgoing_capacity()
            }) ==> {
                let dev = Router::spec_route(
                    old(self).router.rules@,
                    old(queues).egress@[0].0,
                )->Some_0.0;
                &&& final(queues).ingress@.len() == old(queues).ingress@.len() + total_pending(
                    old(self).router.devices@,
                ) + 1
                &&& final(queues).ingress@.last().0 == dev
                &&& final(queues).ingress@.last().1@ == old(queues).egress@[0].1@
            },
    {
        let ghost mut drained_once: bool = false;
        proof {
            lemma_pending_tagged_len(old(self).router.devices@);
        }
        loop
            invariant
                self.wf(),
                self.router.rules@ == old(self).router.rules@,
                self.router.devices@.len() == old(self).router.devices@.len(),
                queues.ingress@.len() >= old(queues).ingress@.len(),
                queues.ingress@.len() + total_pending(self.router.devices@) >= old(
                    queues,
                ).ingress@.len() + total_pending(old(self).router.devices@),
                forall|k: int|
                    0 <= k < old(queues).ingress@.len() ==> queues.ingress@[k] == old(
                        queues,
                    ).ingress@[k],
                !drained_once ==> queues.ingress@ == old(queues).ingress@ && self.router.devices@
                    == old(self).router.devices@ && queues.egress@ == old(queues).egress@,
                drained_once ==> queues.ingress@.len() >= old(queues).ingress@.len()
                    + pending_tagged(old(self).router.devices@).len() && (forall|k: int|
                    0 <= k < pending_tagged(old(self).router.devices@).len() ==> {
                        let e = #[trigger] queues.ingress@[old(queues).ingress@.len() + k];
                        (e.0, e.1@) == pending_tagged(old(self).router.devices@)[k]
                    }),
                forall|j: int|
                    0 <= j < old(self).router.devices@.len() ==> {
                        let d0 = #[trigger] old(self).router.devices@[j];
                        let d1 = self.router.devices@[j];
                        &&& keeps_identity(d0, d1)
                        &&& (d0 is Ethernet ==> d0.pending_outgoing().is_prefix_of(
                            d1.pending_outgoing(),
                        ))
                    },
                (old(queues).egress@.len() == 1 && {
                    let dst = old(queues).egress@[0].0;
                    let p = old(queues).egress@[0].1@;
                    let routed = Router::spec_route(old(self).router.rules@, dst);
                    &&& routed is Some
                    &&& routed->Some_0.0 < old(self).router.devices@.len()
                    &&& old(self).router.devices@[routed->Some_0.0 as int] is Ethernet
                    &&& old(self).router.devices@[routed->Some_0.0 as int].can_accept(p)
                }) ==> {
                    let dev = Router::spec_route(
                        old(self).router.rules@,
                        old(queues).egress@[0].0,
                    )->Some_0.0 as int;
                    (queues.egress@ == old(queues).egress@ && self.router.devices@[dev] == old(
                        self,
                    ).router.devices@[dev]) || (queues.egress@.len() == 0
                        && self.router.devices@[dev].pending_outgoing() == old(
                        self,
                    ).router.devices@[dev].pending_outgoing().push(old(queues).egress@[0].1@))
                },
                (old(queues).egress@.len() == 1 && {
                    let dst = old(queues).egress@[0].0;
                    let p = old(queues).egress@[0].1@;
                    let routed = Router::spec_route(old(self).router.rules@, dst);
                    &&& routed is Some
                    &&& routed->Some_0.0 < old(self).router.devices@.len()
                    &&& old(self).router.devices@[routed->Some_0.0 as int] is Loopback
                    &&& old(self).router.devices@[routed->Some_0.0 as int].outgoing_slots() >= 1
                    &&& p.len() <= old(self).router.devices@[
                        routed->Some_0.0 as int
                    ].outgoing_capacity()
                }) ==> {
                    let dev = Router::spec_route(
                        old(self).router.rules@,
                        old(queues).egress@[0].0,
                    )->Some_0.0 as int;
                    let p = old(queues).egress@[0].1@;
                    (queues.egress@ == old(queues).egress@ && queues.ingress@ == old(
                        queues,
                    ).ingress@ && self.router.devices@ == old(self).router.devices@) || ({
                        &&& queues.egress@.len() == 0
                        &&& queues.ingress@.len() == old(queues).ingress@.len() + total_pending(
                            old(self).router.devices@,
                        )
                        &&& self.router.devices@[dev].pending_incoming() == seq![p]
                        &&& forall|j: int|
                            0 <= j < self.router.devices@.len() && j != dev ==> (
                            #[trigger] self.router.devices@[j]).pending_incoming().len() == 0
                    }) || ({
                        &&& queues.egress@.len() == 0
                        &&& queues.ingress@.len() == old(queues).ingress@.len() + total_pending(
                            old(self).router.devices@,
                        ) + 1
                        &&& queues.ingress@.last().0 == dev as DeviceId
                        &&& queues.ingress@.last().1@ == p
                        &&& forall|j: int|
                            0 <= j < self.router.devices@.len() ==> (
                            #[trigger] self.router.devices@[j]).pending_incoming().len() == 0
                    })
                },
            ensures
                self.wf(),
                self.router.rules@ == old(self).router.rules@,
                self.router.devices@.len() == old(self).router.devices@.len(),
                queues.egress@.len() == 0,
                total_pending(self.router.devices@) == 0,
                queues.ingress@.len() >= old(queues).ingress@.len() + total_pending(
                    old(self).router.devices@,
                ),
                forall|k: int|
                    0 <= k < old(queues).ingress@.len() ==> queues.ingress@[k] == old(
                        queues,
                    ).ingress@[k],
                forall|k: int|
                    0 <= k < pending_tagged(old(self).router.devices@).len() ==> {
                        let e = #[trigger] queues.ingress@[old(queues).ingress@.len() + k];
                        (e.0, e.1@) == pending_tagged(old(self).router.devices@)[k]
                    },
                forall|j: int|
                    0 <= j < old(self).router.devices@.len() ==> {
                        let d0 = #[trigger] old(self).router.devices@[j];
                        let d1 = self.router.devices@[j];
                        &&& keeps_identity(d0, d1)
                        &&& (d0 is Ethernet ==> d0.pending_outgoing().is_prefix_of(
                            d1.pending_outgoing(),
                        ))
                    },
                (old(queues).egress@.len() == 1 && {
                    let dst = old(queues).egress@[0].0;
                    let p = old(queues).egress@[0].1@;
                    let routed = Router::spec_route(old(self).router.rules@, dst);
                    &&& routed is Some
                    &&& routed->Some_0.0 < old(self).router.devices@.len()
                    &&& old(self).router.devices@[routed->Some_0.0 as int] is Ethernet
                    &&& old(self).router.devices@[routed->Some_0.0 as int].can_accept(p)
                }) ==> {
                    let dev = Router::spec_route(
                        old(self).router.rules@,
                        old(queues).egress@[0].0,
                    )->Some_0.0 as int;
                    self.router.devices@[dev].pending_outgoing() == old(
                        self,
                    ).router.devices@[dev].pending_outgoing().push(old(queues).egress@[0].1@)
                },
                (old(queues).egress@.len() == 1 && {
                    let dst = old(queues).egress@[0].0;
                    let p = old(queues).egress@[0].1@;
                    let routed = Router::spec_route(old(self).router.rules@, dst);
                    &&& routed is Some
                    &&& routed->Some_0.0 < old(self).router.devices@.len()
                    &&& old(self).router.devices@[routed->Some_0.0 as int] is Loopback
                    &&& old(self).router.devices@[routed->Some_0.0 as int].outgoing_slots() >= 1
                    &&& p.len() <= old(self).router.devices@[
                        routed->Some_0.0 as int
                    ].outgoing_capacity()
                }) ==> {
                    let dev = Router::spec_route(
                        old(self).router.rules@,
                        old(queues).egress@[0].0,
                    )->Some_0.0;
                    &&& queues.ingress@.len() == old(queues).ingress@.len() + total_pending(
                        old(self).router.devices@,
                    ) + 1
                    &&& queues.ingress@.last().0 == dev
                    &&& queues.ingress@.last().1@ == old(queues).egress@[0].1@
                },
            decreases 2 * queues.egress@.len() + total_pending(self.router.devices@),
        {
            let ghost devs_at_head = self.router.devices@;
            let ghost ingress_at_head = queues.ingress@;
            let ghost egress_at_head = queues.egress@;
            self.drain_devices(queues);
            proof {
                drained_once = true;
                lemma_pending_tagged_len(devs_at_head);
            }
            if queues.egress.len() == 0 {
                proof {
                    if old(queues).egress@.len() == 1 {
                        let dst0 = old(queues).egress@[0].0;
                        let p0 = old(queues).egress@[0].1@;
                        let routed = Router::spec_route(old(self).router.rules@, dst0);
                        if routed is Some && routed->Some_0.0 < old(self).router.devices@.len()
                            && old(self).router.devices@[routed->Some_0.0 as int] is Loopback
                            && old(self).router.devices@[routed->Some_0.0 as int].outgoing_slots()
                            >= 1 && p0.len() <= old(self).router.devices@[
                            routed->Some_0.0 as int
                        ].outgoing_capacity() {
                            let dev = routed->Some_0.0 as int;
                            // the run is past its dispatch when this pass
                            // begins: a still-waiting packet would have kept
                            // the egress queue non-empty
                            assert(egress_at_head.len() == 0);
                            assert forall|j: int|
                                0 <= j < self.router.devices@.len() implies (
                            #[trigger] self.router.devices@[j]).pending_incoming().len() == 0 by {
                                lemma_total_pending_elem(self.router.devices@, j);
                            }
                            if ingress_at_head.len() == old(queues).ingress@.len() + total_pending(
                                old(self).router.devices@,
                            ) {
                                // the packet sat on the loopback ring: this
                                // pass drained it into the ingress queue
                                assert(devs_at_head[dev].pending_incoming() == seq![p0]);
                                lemma_pending_tagged_single(devs_at_head, dev);
                                lemma_pending_tagged_len(devs_at_head);
                                assert(pending_tagged(devs_at_head).len() == 1);
                                assert(pending_tagged(devs_at_head)[0] == (
                                    ((dev as int) as DeviceId),
                                    devs_at_head[dev].pending_incoming()[0],
                                ));
                                assert(queues.ingress@.len() == ingress_at_head.len() + 1);
                                assert((queues.ingress@[ingress_at_head.len() as int + 0].0, queues.ingress@[
                                    ingress_at_head.len() as int + 0
                                ].1@) == pending_tagged(devs_at_head)[0]);
                                assert(queues.ingress@.last() == queues.ingress@[
                                    ingress_at_head.len() as int + 0
                                ]);
                            } else {
                                // already delivered before this pass began:
                                // every device was drained, so the pass
                                // appended nothing and the tail stands
                                assert(total_pending(devs_at_head) == 0) by {
                                    lemma_total_pending_zero(devs_at_head);
                                }
                                assert(queues.ingress@.len() == ingress_at_head.len());
                                assert(queues.ingress@[ingress_at_head.len() - 1]
                                    == ingress_at_head[ingress_at_head.len() - 1]);
                                assert(queues.ingress@.last() == ingress_at_head.last());
                            }
                        }
                    }
                }
                break ;
            }
            let (dst, packet) = queues.egress.remove(0);
            let n = self.router.devices.len();
            match self.router.route(dst) {
                Some((dev, next_hop)) => {
                    if dev < n {
                        let ghost devs_before = self.router.devices@;
                        let mut d = self.router.devices.remove(dev);
                        let ghost d_before_send = d;
                        d.send(next_hop, packet.as_slice());
                        self.router.devices.insert(dev, d);
                        proof {
                            assert(self.router.devices@ =~= devs_before.update(dev as int, d));
                            lemma_total_pending_update(devs_before, dev as int, d);
                            assert forall|j: int|
                                0 <= j < self.router.devices@.len() && j != dev implies (
                            #[trigger] self.router.devices@[j]).pending_incoming().len() == 0 by {
                                lemma_total_pending_elem(devs_before, j);
                            }
                            if d_before_send.pending_outgoing().len() == 0
                                && d_before_send.outgoing_occupied() == 0 && d_before_send
                                is Loopback {
                                assert(Seq::<Seq<u8>>::empty().push(packet@) =~= seq![packet@]);
                            }
                            if d.pending_outgoing() == d_before_send.pending_outgoing().push(
                                packet@,
                            ) {
                                assert forall|j: int|
                                    0 <= j < old(self).router.devices@.len() && old(
                                        self,
                                    ).router.devices@[j] is Ethernet implies #[trigger] old(
                                    self,
                                ).router.devices@[j].pending_outgoing().is_prefix_of(
                                    self.router.devices@[j].pending_outgoing(),
                                ) by {
                                    if j == dev {
                                        lemma_prefix_push(
                                            old(self).router.devices@[j].pending_outgoing(),
                                            d_before_send.pending_outgoing(),
                                            packet@,
                                        );
                                    }
                                }
                            }
                        }
                    }
                    // an out-of-range device identifier drops the packet
                },
                None => {
                    // no route: the packet is dropped, the engine's
                    // retransmission machinery is responsible for recovery
                },
            }
        }
    }
}

} // verus!
