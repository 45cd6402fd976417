//! Network devices.
//!
//! A device is a send/receive endpoint for raw packets. Two transports are
//! provided as enum variants: a loopback device, whose packets come back to
//! the same host, and an Ethernet device, whose packets are exchanged with a
//! NIC driver through a pair of queues that the surrounding runtime pumps.
//!
//! Packet storage is smoltcp's `PacketBuffer`, a bounded FIFO packet ring,
//! used through the trusted declarations below. Its contents are named by
//! [`buffered_packets`], and the payload bytes it holds — the ring keeps
//! internal padding records when its free space wraps, so byte-emptiness is
//! not implied by packet-emptiness — by [`payload_occupancy`]; every wrapper
//! states over those names what the ring's source shows.

use vstd::prelude::*;

use smoltcp::storage::{PacketBuffer, PacketMetadata};

use crate::ip::Ipv4Addr;

verus! {

/// smoltcp's bounded FIFO ring of packets, declared so that the library can
/// hold one in a field.
#[verifier::external_type_specification]
#[verifier::external_body]
#[verifier::reject_recursive_types(H)]
pub struct ExPacketBuffer<'a, H: 'a>(PacketBuffer<'a, H>);

/// The packets queued in a ring, oldest first. Padding records that the
/// ring keeps internally are no packets and do not appear here.
pub uninterp spec fn buffered_packets(buf: PacketBuffer<'static, ()>) -> Seq<Seq<u8>>;

/// The number of packet slots the ring was made with: the bound on how many
/// packets it can hold at once.
pub uninterp spec fn packet_slots(buf: PacketBuffer<'static, ()>) -> nat;

/// The total payload bytes the ring was made with: the bound on the summed
/// size of queued packets.
pub uninterp spec fn payload_capacity(buf: PacketBuffer<'static, ()>) -> nat;

/// The payload bytes the ring holds right now, internal padding records
/// included. Zero occupancy together with zero packets means the ring is
/// really empty: a padding record always occupies at least one byte.
pub uninterp spec fn payload_occupancy(buf: PacketBuffer<'static, ()>) -> nat;

/// Relies on smoltcp's `PacketBuffer::new`: a buffer built over fresh
/// metadata and payload storage holds no packets and no bytes, `slots`
/// packet slots and `bytes` payload bytes.
#[verifier::external_body]
fn new_packet_buffer(slots: usize, bytes: usize) -> (r: PacketBuffer<'static, ()>)
    ensures
        buffered_packets(r) == Seq::<Seq<u8>>::empty(),
        payload_occupancy(r) == 0,
        packet_slots(r) == slots as nat,
        payload_capacity(r) == bytes as nat,
{
    PacketBuffer::new(
        vec![PacketMetadata::EMPTY; slots],
        vec![0u8; bytes],
    )
}

/// Relies on smoltcp's `PacketBuffer::enqueue`: on success the packet is
/// appended to the ring and the returned slot is its payload, which this
/// wrapper fills with `data`; on `Full` the ring's packets are unchanged
/// (a failing enqueue may still leave a padding record behind, which is why
/// nothing is claimed of the occupancy afterwards). The source shows
/// success is owed when the ring is really empty — no packets and no bytes,
/// so no dangling padding either — one slot exists and the payload fits.
#[verifier::external_body]
fn enqueue_packet(buf: &mut PacketBuffer<'static, ()>, data: &[u8]) -> (ok: bool)
    ensures
        packet_slots(*final(buf)) == packet_slots(*old(buf)),
        payload_capacity(*final(buf)) == payload_capacity(*old(buf)),
        ok ==> buffered_packets(*final(buf)) == buffered_packets(*old(buf)).push(data@),
        !ok ==> buffered_packets(*final(buf)) == buffered_packets(*old(buf)),
        (buffered_packets(*old(buf)).len() == 0 && payload_occupancy(*old(buf)) == 0
            && packet_slots(*old(buf)) >= 1 && data@.len() <= payload_capacity(*old(buf))) ==> ok,
{
    match buf.enqueue(data.len(), ()) {
        Ok(slot) => {
            slot.copy_from_slice(data);
            true
        },
        Err(_) => false,
    }
}

/// Relies on smoltcp's `PacketBuffer::dequeue`: it returns the oldest
/// queued packet and removes it, or reports the ring empty. An empty report
/// leaves the ring byte-empty too: at most one padding record can lead the
/// ring, and the call removes it before looking for a packet.
#[verifier::external_body]
fn dequeue_packet(buf: &mut PacketBuffer<'static, ()>) -> (r: Option<Vec<u8>>)
    ensures
        packet_slots(*final(buf)) == packet_slots(*old(buf)),
        payload_capacity(*final(buf)) == payload_capacity(*old(buf)),
        buffered_packets(*old(buf)).len() == 0 ==> r is None && buffered_packets(*final(buf))
            == buffered_packets(*old(buf)) && payload_occupancy(*final(buf)) == 0,
        buffered_packets(*old(buf)).len() > 0 ==> (match r {
            Some(p) => p@ == buffered_packets(*old(buf))[0] && buffered_packets(*final(buf))
                == buffered_packets(*old(buf)).drop_first(),
            None => false,
        }),
{
    match buf.dequeue() {
        Ok((_, payload)) => Some(payload.to_vec()),
        Err(_) => None,
    }
}

/// How many packets fit in a device ring.
pub const DEVICE_RING_SLOTS: usize = 64;

/// The usual Ethernet MTU, used to size payload storage.
pub const STANDARD_MTU: usize = 1500;

/// A loopback device: what is sent to it is received back from it, in order.
pub struct LoopbackDevice {
    buffer: PacketBuffer<'static, ()>,
}

impl LoopbackDevice {
    /// The packets queued on the device, oldest first.
    pub closed spec fn queued(self) -> Seq<Seq<u8>> {
        buffered_packets(self.buffer)
    }

    /// The payload bytes the device ring holds, padding included.
    pub closed spec fn occupied(self) -> nat {
        payload_occupancy(self.buffer)
    }

    /// The payload bytes the device ring was sized with.
    pub closed spec fn capacity(self) -> nat {
        payload_capacity(self.buffer)
    }

    /// The packet slots the device ring was sized with.
    pub closed spec fn slots(self) -> nat {
        packet_slots(self.buffer)
    }

    /// Builds a loopback device with an empty ring.
    pub fn new() -> (r: LoopbackDevice)
        ensures
            r.queued() == Seq::<Seq<u8>>::empty(),
            r.occupied() == 0,
            r.slots() == DEVICE_RING_SLOTS as nat,
            r.capacity() == (DEVICE_RING_SLOTS * STANDARD_MTU) as nat,
    {
        LoopbackDevice {
            buffer: new_packet_buffer(DEVICE_RING_SLOTS, DEVICE_RING_SLOTS * STANDARD_MTU),
        }
    }

    /// Takes the oldest queued packet off the device, if any. Finding the
    /// device empty leaves its ring byte-empty as well.
    pub fn recv(&mut self) -> (r: Option<Vec<u8>>)
        ensures
            final(self).slots() == old(self).slots(),
            final(self).capacity() == old(self).capacity(),
            old(self).queued().len() == 0 ==> r is None && final(self).queued() == old(self).queued() && final(self).occupied() == 0,
            old(self).queued().len() > 0 ==> (match r {
                Some(p) => p@ == old(self).queued()[0] && final(self).queued() == old(self).queued().drop_first(),
                None => false,
            }),
    {
        dequeue_packet(&mut self.buffer)
    }

    /// Queues a packet on the device. A full ring drops the packet silently:
    /// transport-level losses are absorbed here, never surfaced to socket
    /// callers. A packet that fits a really empty ring is owed admission.
    pub fn send(&mut self, packet: &[u8]) -> (ok: bool)
        ensures
            final(self).slots() == old(self).slots(),
            final(self).capacity() == old(self).capacity(),
            ok ==> final(self).queued() == old(self).queued().push(packet@),
            !ok ==> final(self).queued() == old(self).queued(),
            (old(self).queued().len() == 0 && old(self).occupied() == 0 && old(self).slots() >= 1
                && packet@.len() <= old(self).capacity()) ==> ok,
    {
        enqueue_packet(&mut self.buffer, packet)
    }
}

/// An Ethernet device: a pair of rings pumped by the NIC driver glue. What
/// the subsystem sends lands on the outgoing ring; what the driver receives
/// is pushed onto the incoming ring.
pub struct EthernetDevice {
    name: String,
    incoming: PacketBuffer<'static, ()>,
    outgoing: PacketBuffer<'static, ()>,
}

impl EthernetDevice {
    /// Packets received by the driver and not yet drained, oldest first.
    pub closed spec fn incoming_queued(self) -> Seq<Seq<u8>> {
        buffered_packets(self.incoming)
    }

    /// The payload bytes the incoming ring holds, padding included.
    pub closed spec fn incoming_occupied(self) -> nat {
        payload_occupancy(self.incoming)
    }

    /// Packets sent by the subsystem and not yet handed to the driver.
    pub closed spec fn outgoing_queued(self) -> Seq<Seq<u8>> {
        buffered_packets(self.outgoing)
    }

    /// The payload bytes the outgoing ring holds, padding included.
    pub closed spec fn outgoing_occupied(self) -> nat {
        payload_occupancy(self.outgoing)
    }

    /// The packet slots each ring was sized with.
    pub closed spec fn outgoing_slots(self) -> nat {
        packet_slots(self.outgoing)
    }

    /// The payload bytes the outgoing ring was sized with.
    pub closed spec fn outgoing_capacity(self) -> nat {
        payload_capacity(self.outgoing)
    }

    /// The packet slots the incoming ring was sized with.
    pub closed spec fn incoming_slots(self) -> nat {
        packet_slots(self.incoming)
    }

    /// The payload bytes the incoming ring was sized with.
    pub closed spec fn incoming_capacity(self) -> nat {
        payload_capacity(self.incoming)
    }

    /// The device's name.
    pub closed spec fn spec_name(self) -> Seq<char> {
        self.name@
    }

    /// Both rings keep their construction bounds.
    pub open spec fn same_bounds(self, other: EthernetDevice) -> bool {
        &&& self.outgoing_slots() == other.outgoing_slots()
        &&& self.outgoing_capacity() == other.outgoing_capacity()
        &&& self.incoming_slots() == other.incoming_slots()
        &&& self.incoming_capacity() == other.incoming_capacity()
    }

    /// Builds an Ethernet device with empty rings.
    pub fn new(name: String) -> (r: EthernetDevice)
        ensures
            r.incoming_queued() == Seq::<Seq<u8>>::empty(),
            r.incoming_occupied() == 0,
            r.outgoing_queued() == Seq::<Seq<u8>>::empty(),
            r.outgoing_occupied() == 0,
            r.outgoing_slots() == DEVICE_RING_SLOTS as nat,
            r.outgoing_capacity() == (DEVICE_RING_SLOTS * STANDARD_MTU) as nat,
            r.incoming_slots() == DEVICE_RING_SLOTS as nat,
            r.incoming_capacity() == (DEVICE_RING_SLOTS * STANDARD_MTU) as nat,
            r.spec_name() == name@,
    {
        EthernetDevice {
            name,
            incoming: new_packet_buffer(DEVICE_RING_SLOTS, DEVICE_RING_SLOTS * STANDARD_MTU),
            outgoing: new_packet_buffer(DEVICE_RING_SLOTS, DEVICE_RING_SLOTS * STANDARD_MTU),
        }
    }

    /// Takes the oldest packet the driver delivered, if any. The outgoing
    /// ring is untouched.
    pub fn recv(&mut self) -> (r: Option<Vec<u8>>)
        ensures
            final(self).same_bounds(*old(self)),
            final(self).outgoing_queued() == old(self).outgoing_queued(),
            final(self).outgoing_occupied() == old(self).outgoing_occupied(),
            final(self).spec_name() == old(self).spec_name(),
            old(self).incoming_queued().len() == 0 ==> r is None && final(self).incoming_queued()
                == old(self).incoming_queued() && final(self).incoming_occupied() == 0,
            old(self).incoming_queued().len() > 0 ==> (match r {
                Some(p) => p@ == old(self).incoming_queued()[0] && final(self).incoming_queued()
                    == old(self).incoming_queued().drop_first(),
                None => false,
            }),
    {
        dequeue_packet(&mut self.incoming)
    }

    /// Queues a packet for the driver; a full ring drops it silently, and a
    /// packet that fits a really empty ring is owed admission. The incoming
    /// ring is untouched.
    pub fn send(&mut self, packet: &[u8]) -> (ok: bool)
        ensures
            final(self).same_bounds(*old(self)),
            final(self).incoming_queued() == old(self).incoming_queued(),
            final(self).incoming_occupied() == old(self).incoming_occupied(),
            final(self).spec_name() == old(self).spec_name(),
            ok ==> final(self).outgoing_queued() == old(self).outgoing_queued().push(packet@),
            !ok ==> final(self).outgoing_queued() == old(self).outgoing_queued(),
            (old(self).outgoing_queued().len() == 0 && old(self).outgoing_occupied() == 0 && old(self).outgoing_slots() >= 1 && packet@.len() <= old(self).outgoing_capacity()) ==> ok,
    {
        enqueue_packet(&mut self.outgoing, packet)
    }

    /// Hands the driver glue the oldest packet waiting to leave, if any.
    pub fn pop_outgoing(&mut self) -> (r: Option<Vec<u8>>)
        ensures
            final(self).same_bounds(*old(self)),
            final(self).incoming_queued() == old(self).incoming_queued(),
            final(self).incoming_occupied() == old(self).incoming_occupied(),
            final(self).spec_name() == old(self).spec_name(),
            old(self).outgoing_queued().len() == 0 ==> r is None && final(self).outgoing_queued()
                == old(self).outgoing_queued() && final(self).outgoing_occupied() == 0,
            old(self).outgoing_queued().len() > 0 ==> (match r {
                Some(p) => p@ == old(self).outgoing_queued()[0] && final(self).outgoing_queued()
                    == old(self).outgoing_queued().drop_first(),
                None => false,
            }),
    {
        dequeue_packet(&mut self.outgoing)
    }

    /// Lets the driver glue deliver a received packet; a full ring drops it,
    /// and a packet that fits a really empty ring is owed admission.
    pub fn push_incoming(&mut self, packet: &[u8]) -> (ok: bool)
        ensures
            final(self).same_bounds(*old(self)),
            final(self).outgoing_queued() == old(self).outgoing_queued(),
            final(self).outgoing_occupied() == old(self).outgoing_occupied(),
            final(self).spec_name() == old(self).spec_name(),
            ok ==> final(self).incoming_queued() == old(self).incoming_queued().push(packet@),
            !ok ==> final(self).incoming_queued() == old(self).incoming_queued(),
            (old(self).incoming_queued().len() == 0 && old(self).incoming_occupied() == 0 && old(self).incoming_slots() >= 1 && packet@.len() <= old(self).incoming_capacity()) ==> ok,
    {
        enqueue_packet(&mut self.incoming, packet)
    }
}

/// A device, as one of the supported transports. Future transports are new
/// variants, not subclasses.
pub enum Device {
    /// The loopback transport.
    Loopback(LoopbackDevice),
    /// An Ethernet NIC transport.
    Ethernet(EthernetDevice),
}

impl Device {
    /// Packets waiting to be drained into the protocol engine, oldest first:
    /// a loopback ring's contents, or an Ethernet device's incoming ring.
    pub open spec fn pending_incoming(self) -> Seq<Seq<u8>> {
        match self {
            Device::Loopback(d) => d.queued(),
            Device::Ethernet(d) => d.incoming_queued(),
        }
    }

    /// The payload bytes held on the receiving side, padding included.
    pub open spec fn incoming_occupied(self) -> nat {
        match self {
            Device::Loopback(d) => d.occupied(),
            Device::Ethernet(d) => d.incoming_occupied(),
        }
    }

    /// Packets waiting to leave through the transport, oldest first: on
    /// loopback the same queue that [`Self::pending_incoming`] reads, on
    /// Ethernet the ring the driver glue drains.
    pub open spec fn pending_outgoing(self) -> Seq<Seq<u8>> {
        match self {
            Device::Loopback(d) => d.queued(),
            Device::Ethernet(d) => d.outgoing_queued(),
        }
    }

    /// The payload bytes held on the sending side, padding included. On
    /// loopback both sides read the one ring.
    pub open spec fn outgoing_occupied(self) -> nat {
        match self {
            Device::Loopback(d) => d.occupied(),
            Device::Ethernet(d) => d.outgoing_occupied(),
        }
    }

    /// The packet slots of the sending-side ring.
    pub open spec fn outgoing_slots(self) -> nat {
        match self {
            Device::Loopback(d) => d.slots(),
            Device::Ethernet(d) => d.outgoing_slots(),
        }
    }

    /// The payload bytes the sending-side ring was sized with.
    pub open spec fn outgoing_capacity(self) -> nat {
        match self {
            Device::Loopback(d) => d.capacity(),
            Device::Ethernet(d) => d.outgoing_capacity(),
        }
    }

    /// The device's name: a loopback device is "lo", an Ethernet device
    /// carries the name it was registered under.
    pub open spec fn device_name(self) -> Seq<char> {
        match self {
            Device::Loopback(_) => "lo"@,
            Device::Ethernet(d) => d.spec_name(),
        }
    }

    /// The device's name.
    pub fn name(&self) -> (r: &str)
        ensures
            r@ == self.device_name(),
    {
        match self {
            Device::Loopback(_) => "lo",
            Device::Ethernet(d) => d.name.as_str(),
        }
    }

    /// Whether a packet is owed admission on the sending side: the ring is
    /// really empty — no packets and no bytes — a slot exists, and the
    /// payload fits.
    pub open spec fn can_accept(self, packet: Seq<u8>) -> bool {
        &&& self.pending_outgoing().len() == 0
        &&& self.outgoing_occupied() == 0
        &&& self.outgoing_slots() >= 1
        &&& packet.len() <= self.outgoing_capacity()
    }

    /// Takes the oldest packet waiting for the engine, if any. Finding the
    /// receiving side empty leaves its ring byte-empty too; an Ethernet
    /// device's sending side is untouched.
    pub fn recv(&mut self) -> (r: Option<Vec<u8>>)
        ensures
            old(self).pending_incoming().len() == 0 ==> r is None && final(self).pending_incoming()
                == old(self).pending_incoming() && final(self).incoming_occupied() == 0,
            old(self).pending_incoming().len() > 0 ==> (match r {
                Some(p) => p@ == old(self).pending_incoming()[0] && final(self).pending_incoming()
                    == old(self).pending_incoming().drop_first(),
                None => false,
            }),
            (*final(self)) is Ethernet ==> final(self).pending_outgoing() == old(self).pending_outgoing() && final(self).outgoing_occupied() == old(self).outgoing_occupied(),
            final(self).outgoing_slots() == old(self).outgoing_slots(),
            final(self).outgoing_capacity() == old(self).outgoing_capacity(),
            final(self).device_name() == old(self).device_name(),
            (*old(self)) is Loopback <==> (*final(self)) is Loopback,
    {
        match self {
            Device::Loopback(d) => d.recv(),
            Device::Ethernet(d) => d.recv(),
        }
    }

    /// Sends one packet towards `next_hop` on this device. Transient
    /// transport errors (a full ring) are absorbed: the packet is dropped
    /// and the caller is not told; reliability is the protocol engine's
    /// business. But a packet the ring can accept — see
    /// [`Self::can_accept`] — is queued, never dropped. On loopback the
    /// packet joins the incoming queue; on Ethernet it joins the driver's
    /// outgoing ring.
    pub fn send(&mut self, next_hop: Ipv4Addr, packet: &[u8])
        ensures
            final(self).pending_outgoing() == old(self).pending_outgoing().push(packet@) || final(self).pending_outgoing() == old(self).pending_outgoing(),
            old(self).can_accept(packet@) ==> final(self).pending_outgoing() == old(self).pending_outgoing().push(packet@),
            final(self).pending_incoming() == old(self).pending_incoming() || final(self).pending_incoming() == old(self).pending_incoming().push(packet@),
            (*final(self)) is Ethernet ==> final(self).pending_incoming() == old(self).pending_incoming() && final(self).incoming_occupied() == old(self).incoming_occupied(),
            final(self).outgoing_slots() == old(self).outgoing_slots(),
            final(self).outgoing_capacity() == old(self).outgoing_capacity(),
            final(self).device_name() == old(self).device_name(),
            (*old(self)) is Loopback <==> (*final(self)) is Loopback,
            final(self).pending_incoming().len() <= old(self).pending_incoming().len() + 1,
    {
        let _ = next_hop;
        match self {
            Device::Loopback(d) => {
                let _ = d.send(packet);
            },
            Device::Ethernet(d) => {
                let _ = d.send(packet);
            },
        }
    }
}

} // verus!
