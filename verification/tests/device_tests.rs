use axnet::device::{Device, EthernetDevice, LoopbackDevice, DEVICE_RING_SLOTS, STANDARD_MTU};
use axnet::ip::{Ipv4Addr, Ipv4Cidr};
use axnet::router::{Router, Rule};
use axnet::service::{PacketQueues, Service};
use axnet::stack::{init_network, poll_interfaces};

fn addr(a: u8, b: u8, c: u8, d: u8) -> Ipv4Addr {
    Ipv4Addr::from_octets(a, b, c, d)
}

#[test]
fn loopback_is_fifo() {
    let mut lo = LoopbackDevice::new();
    assert!(lo.send(&[1, 2, 3]));
    assert!(lo.send(&[4, 5]));

    assert_eq!(lo.recv(), Some(vec![1, 2, 3]));
    assert_eq!(lo.recv(), Some(vec![4, 5]));
    assert_eq!(lo.recv(), None);
}

#[test]
fn loopback_drops_oversized_packets() {
    let mut lo = LoopbackDevice::new();
    let oversized = vec![0u8; DEVICE_RING_SLOTS * STANDARD_MTU + 1];
    assert!(!lo.send(&oversized));
    assert_eq!(lo.recv(), None);

    // a packet that fits still goes through afterwards
    assert!(lo.send(&[9]));
    assert_eq!(lo.recv(), Some(vec![9]));
}

#[test]
fn ethernet_queues_are_separate() {
    let mut eth = EthernetDevice::new("eth0".to_string());

    // what the subsystem sends waits for the driver glue
    assert!(eth.send(&[1, 1]));
    assert_eq!(eth.recv(), None);
    assert_eq!(eth.pop_outgoing(), Some(vec![1, 1]));
    assert_eq!(eth.pop_outgoing(), None);

    // what the driver delivers waits for the subsystem
    assert!(eth.push_incoming(&[2, 2]));
    assert_eq!(eth.recv(), Some(vec![2, 2]));
    assert_eq!(eth.recv(), None);
}

#[test]
fn device_names() {
    let lo = Device::Loopback(LoopbackDevice::new());
    assert_eq!(lo.name(), "lo");
    let eth = Device::Ethernet(EthernetDevice::new("eth0".to_string()));
    assert_eq!(eth.name(), "eth0");
}

#[test]
fn poll_delivers_loopback_traffic_to_ingress() {
    let mut stack = init_network(
        "eth0".to_string(),
        Ipv4Cidr::new(addr(10, 0, 0, 2), 24),
        addr(10, 0, 0, 1),
    );
    let mut queues = PacketQueues::new();

    // the engine wants two packets sent to the loopback address
    queues.egress.push((addr(127, 0, 0, 5), vec![0xaa, 0xbb]));
    queues.egress.push((addr(127, 0, 0, 1), vec![0xcc]));

    poll_interfaces(&mut stack, &mut queues);

    // the fixpoint drained everything: the packets looped back into the
    // ingress queue from device 0, in order
    assert!(queues.egress.is_empty());
    assert_eq!(queues.ingress.len(), 2);
    assert_eq!(queues.ingress[0], (0, vec![0xaa, 0xbb]));
    assert_eq!(queues.ingress[1], (0, vec![0xcc]));

    // a second poll finds nothing more to do
    poll_interfaces(&mut stack, &mut queues);
    assert_eq!(queues.ingress.len(), 2);
}

#[test]
fn poll_routes_external_traffic_to_the_nic() {
    let mut stack = init_network(
        "eth0".to_string(),
        Ipv4Cidr::new(addr(10, 0, 0, 2), 24),
        addr(10, 0, 0, 1),
    );
    let mut queues = PacketQueues::new();

    queues.egress.push((addr(8, 8, 8, 8), vec![0x11]));
    poll_interfaces(&mut stack, &mut queues);

    // nothing loops back: the packet sits on the NIC's outgoing ring
    assert!(queues.egress.is_empty());
    assert!(queues.ingress.is_empty());
    match &mut stack.service.router.devices[1] {
        Device::Ethernet(eth) => {
            assert_eq!(eth.pop_outgoing(), Some(vec![0x11]));
            assert_eq!(eth.pop_outgoing(), None);
        },
        _ => panic!("device 1 should be the NIC"),
    }
}

#[test]
fn poll_drops_unroutable_packets() {
    // a router with only the loopback rule: no default route
    let mut router = Router::new();
    let lo = router.add_device(Device::Loopback(LoopbackDevice::new()));
    router.add_rule(Rule::new(
        Ipv4Cidr::new(addr(127, 0, 0, 0), 8),
        None,
        lo,
        addr(127, 0, 0, 1),
    ));
    let mut service = Service::new(router);

    let mut queues = PacketQueues::new();
    queues.egress.push((addr(8, 8, 8, 8), vec![0x42]));
    service.poll(&mut queues);

    // no route: the packet is absorbed, never surfaced
    assert!(queues.egress.is_empty());
    assert!(queues.ingress.is_empty());
}

#[test]
fn init_network_standard_configuration() {
    let stack = init_network(
        "eth0".to_string(),
        Ipv4Cidr::new(addr(10, 0, 0, 2), 24),
        addr(10, 0, 0, 1),
    );
    assert_eq!(stack.service.router.devices.len(), 2);
    assert_eq!(stack.service.router.devices[0].name(), "lo");
    assert_eq!(stack.service.router.devices[1].name(), "eth0");
    assert_eq!(stack.service.router.rules.len(), 2);
    assert_eq!(stack.service.ip_addrs.len(), 2);
    assert_eq!(stack.sockets.live_sockets(), 0);
    assert_eq!(stack.dns.active_queries, 0);
}
