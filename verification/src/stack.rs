//! The network subsystem context.
//!
//! One context object holds the process-wide state — the polling service
//! with its router and devices, the shared socket table, the listen table
//! and the DNS engine model. It is constructed once at subsystem
//! initialization and passed by reference to all socket wrappers; there is
//! no teardown path, and no hidden global.

use vstd::prelude::*;

use crate::device::{Device, EthernetDevice, LoopbackDevice};
use crate::dns::DnsEngine;
use crate::ip::{Ipv4Addr, Ipv4Cidr};
use crate::listen_table::ListenTable;
use crate::router::{Router, Rule};
use crate::service::{keeps_identity, pending_tagged, total_pending, PacketQueues, Service};
use vstd::seq_lib::*;
use crate::wrapper::SocketSetWrapper;

verus! {

/// How many DNS queries the protocol engine runs at once.
pub const DNS_QUERY_SLOTS: usize = 4;

/// The process-wide network state.
pub struct NetStack {
    /// The polling service, owning the router and the devices.
    pub service: Service,
    /// The shared socket table.
    pub sockets: SocketSetWrapper,
    /// The listen table.
    pub listen_table: ListenTable,
    /// The protocol engine's DNS query slots.
    pub dns: DnsEngine,
}

impl NetStack {
    /// The context is well formed when each part is.
    pub open spec fn wf(self) -> bool {
        &&& self.service.wf()
        &&& self.listen_table.wf()
        &&& self.dns.wf()
    }
}

/// Initializes the network subsystem over one NIC.
///
/// Two devices are registered: the loopback device serving `127.0.0.0/8`
/// directly, and the NIC serving everything else through `gateway`. The
/// interface carries the loopback address and `nic_ip`; the routing table
/// holds exactly those two rules, loopback first.
pub fn init_network(nic_name: String, nic_ip: Ipv4Cidr, gateway: Ipv4Addr) -> (r: NetStack)
    requires
        nic_ip.wf(),
    ensures
        r.wf(),
        r.service.router.devices@.len() == 2,
        r.service.router.devices@[0] is Loopback,
        r.service.router.devices@[1] is Ethernet,
        r.service.router.rules@.len() == 2,
        r.service.router.rules@[0].subnet == (Ipv4Cidr {
            base: Ipv4Addr::spec_from_octets(127, 0, 0, 1),
            prefix: 8u8,
        }),
        r.service.router.rules@[0].gateway is None,
        r.service.router.rules@[0].device == 0,
        r.service.router.rules@[0].src == Ipv4Addr::spec_from_octets(127, 0, 0, 1),
        r.service.router.rules@[1].subnet == (Ipv4Cidr { base: Ipv4Addr { bits: 0 }, prefix: 0u8 }),
        r.service.router.rules@[1].gateway == Some(gateway),
        r.service.router.rules@[1].device == 1,
        r.service.router.rules@[1].src == nic_ip.base,
        r.service.ip_addrs@.len() == 2,
        r.service.ip_addrs@[0] == (Ipv4Cidr {
            base: Ipv4Addr::spec_from_octets(127, 0, 0, 1),
            prefix: 8u8,
        }),
        r.service.ip_addrs@[1] == nic_ip,
        r.sockets.table().len() == 0,
        r.listen_table.entries_seq().len() == 0,
        r.dns.active_queries == 0,
        r.dns.slot_limit == DNS_QUERY_SLOTS,
{
    let lo_ip = Ipv4Cidr::new(Ipv4Addr::from_octets(127, 0, 0, 1), 8);

    let mut router = Router::new();
    let lo_dev = router.add_device(Device::Loopback(LoopbackDevice::new()));
    let eth0_dev = router.add_device(Device::Ethernet(EthernetDevice::new(nic_name)));

    router.add_rule(Rule::new(lo_ip, None, lo_dev, lo_ip.base));
    router.add_rule(
        Rule::new(Ipv4Cidr::new(Ipv4Addr::unspecified(), 0), Some(gateway), eth0_dev, nic_ip.base),
    );

    let mut service = Service::new(router);
    let mut addrs: Vec<Ipv4Cidr> = Vec::new();
    addrs.push(lo_ip);
    addrs.push(nic_ip);
    service.update_ip_addrs(addrs);

    NetStack {
        service,
        sockets: SocketSetWrapper::new(),
        listen_table: ListenTable::new(),
        dns: DnsEngine::new(DNS_QUERY_SLOTS),
    }
}

/// Advances the protocol engine by one polling fixpoint over all devices;
/// see [`Service::poll`].
pub fn poll_interfaces(stack: &mut NetStack, queues: &mut PacketQueues)
    requires
        old(stack).wf(),
    ensures
        final(stack).wf(),
        final(queues).egress@.len() == 0,
        final(stack).sockets == old(stack).sockets,
        final(stack).listen_table == old(stack).listen_table,
        final(stack).dns == old(stack).dns,
        total_pending(final(stack).service.router.devices@) == 0,
        final(queues).ingress@.len() >= old(queues).ingress@.len() + total_pending(
            old(stack).service.router.devices@,
        ),
        forall|k: int|
            0 <= k < old(queues).ingress@.len() ==> final(queues).ingress@[k] == old(
                queues,
            ).ingress@[k],
        forall|k: int|
            0 <= k < pending_tagged(old(stack).service.router.devices@).len() ==> {
                let e = #[trigger] final(queues).ingress@[old(queues).ingress@.len() + k];
                (e.0, e.1@) == pending_tagged(old(stack).service.router.devices@)[k]
            },
        forall|j: int|
            0 <= j < old(stack).service.router.devices@.len() ==> {
                let d0 = #[trigger] old(stack).service.router.devices@[j];
                let d1 = final(stack).service.router.devices@[j];
                &&& keeps_identity(d0, d1)
                &&& (d0 is Ethernet ==> d0.pending_outgoing().is_prefix_of(d1.pending_outgoing()))
            },
{
    stack.service.poll(queues);
}

} // verus!
