use axnet::device::{Device, EthernetDevice, LoopbackDevice};
use axnet::err::SysError;
use axnet::ip::{Ipv4Addr, Ipv4Cidr};
use axnet::listen_table::ListenTable;
use axnet::options::{GeneralOptions, GetSocketOption, SetSocketOption, SocketOptionValue};
use axnet::router::{Router, Rule};
use axnet::wrapper::{SocketEntry, SocketKind, SocketSetWrapper};

fn addr(a: u8, b: u8, c: u8, d: u8) -> Ipv4Addr {
    Ipv4Addr::from_octets(a, b, c, d)
}

#[test]
fn router_first_match_wins() {
    let mut router = Router::new();
    let lo = router.add_device(Device::Loopback(LoopbackDevice::new()));
    let eth0 = router.add_device(Device::Ethernet(EthernetDevice::new("eth0".to_string())));
    let gateway = addr(10, 0, 0, 1);

    router.add_rule(Rule::new(
        Ipv4Cidr::new(addr(127, 0, 0, 0), 8),
        None,
        lo,
        addr(127, 0, 0, 1),
    ));
    router.add_rule(Rule::new(
        Ipv4Cidr::new(addr(0, 0, 0, 0), 0),
        Some(gateway),
        eth0,
        addr(10, 0, 0, 2),
    ));

    // loopback destinations are delivered directly
    assert_eq!(router.route(addr(127, 0, 0, 5)), Some((lo, addr(127, 0, 0, 5))));
    // everything else leaves through the default route's gateway
    assert_eq!(router.route(addr(8, 8, 8, 8)), Some((eth0, gateway)));
}

#[test]
fn router_empty_table_has_no_route() {
    let router = Router::new();
    assert_eq!(router.route(addr(127, 0, 0, 1)), None);
    assert_eq!(router.route(addr(8, 8, 8, 8)), None);
    assert_eq!(router.route(addr(0, 0, 0, 0)), None);
}

#[test]
fn router_no_route_is_an_error() {
    let mut router = Router::new();
    let lo = router.add_device(Device::Loopback(LoopbackDevice::new()));
    router.add_rule(Rule::new(
        Ipv4Cidr::new(addr(127, 0, 0, 0), 8),
        None,
        lo,
        addr(127, 0, 0, 1),
    ));
    assert_eq!(router.resolve_route(addr(127, 0, 0, 9)), Ok((lo, addr(127, 0, 0, 9))));
    // no rule serves the destination: host unreachable
    assert_eq!(router.resolve_route(addr(8, 8, 8, 8)), Err(SysError::NoRoute));
}

#[test]
fn router_rule_order_decides() {
    let mut router = Router::new();
    let d0 = router.add_device(Device::Loopback(LoopbackDevice::new()));
    let d1 = router.add_device(Device::Loopback(LoopbackDevice::new()));
    // two overlapping rules: insertion order decides
    router.add_rule(Rule::new(Ipv4Cidr::new(addr(0, 0, 0, 0), 0), None, d0, addr(0, 0, 0, 0)));
    router.add_rule(Rule::new(Ipv4Cidr::new(addr(10, 0, 0, 0), 8), None, d1, addr(10, 0, 0, 9)));
    assert_eq!(router.route(addr(10, 1, 2, 3)), Some((d0, addr(10, 1, 2, 3))));
}

#[test]
fn bind_conflict_without_reuse() {
    let mut sockets = SocketSetWrapper::new();
    let a = addr(10, 0, 0, 2);

    let h1 = sockets.add(SocketEntry::new(SocketKind::Tcp));
    assert_eq!(sockets.bind(h1, a, 80), Ok(()));

    // the identical (addr, port) pair is refused without reuse-address
    let h2 = sockets.add(SocketEntry::new(SocketKind::Tcp));
    assert_eq!(sockets.bind(h2, a, 80), Err(SysError::AddressInUse));

    // a different port is fine
    assert_eq!(sockets.bind(h2, a, 81), Ok(()));
}

#[test]
fn bind_allowed_with_reuse_on_both_sides() {
    let mut sockets = SocketSetWrapper::new();
    let a = addr(10, 0, 0, 2);

    let mut e1 = SocketEntry::new(SocketKind::Udp);
    e1.options.reuse_addr = true;
    let h1 = sockets.add(e1);
    assert_eq!(sockets.bind(h1, a, 7000), Ok(()));

    // reuse on one side only does not help
    let h2 = sockets.add(SocketEntry::new(SocketKind::Udp));
    assert_eq!(sockets.bind(h2, a, 7000), Err(SysError::AddressInUse));

    // reuse on both sides permits the second bind
    let mut e3 = SocketEntry::new(SocketKind::Udp);
    e3.options.reuse_addr = true;
    let h3 = sockets.add(e3);
    assert_eq!(sockets.bind(h3, a, 7000), Ok(()));
}

#[test]
fn bind_ephemeral_never_conflicts() {
    let mut sockets = SocketSetWrapper::new();
    let a = addr(10, 0, 0, 2);

    for port in [80u16, 443, 7000] {
        let h = sockets.add(SocketEntry::new(SocketKind::Tcp));
        assert_eq!(sockets.bind(h, a, port), Ok(()));
    }
    // port 0 is admitted regardless of what is bound concurrently
    let h = sockets.add(SocketEntry::new(SocketKind::Tcp));
    assert_eq!(sockets.bind(h, a, 0), Ok(()));
    assert_eq!(sockets.bind_check(a, 0, false), Ok(()));
}

#[test]
fn socket_table_handles_are_fresh() {
    let mut sockets = SocketSetWrapper::new();
    let h1 = sockets.add(SocketEntry::new(SocketKind::Tcp));
    let h2 = sockets.add(SocketEntry::new(SocketKind::Udp));
    assert_ne!(h1, h2);
    assert_eq!(sockets.live_sockets(), 2);

    sockets.remove(h1);
    assert_eq!(sockets.live_sockets(), 1);

    // a removed slot is never handed out again
    let h3 = sockets.add(SocketEntry::new(SocketKind::Tcp));
    assert_ne!(h3, h1);
    assert_ne!(h3, h2);
    assert_eq!(sockets.live_sockets(), 2);
}

#[test]
fn socket_table_with_socket_reads_and_updates() {
    let mut sockets = SocketSetWrapper::new();
    let h = sockets.add(SocketEntry::new(SocketKind::Udp));

    let kind = sockets.with_socket(h, |e| e.kind);
    assert_eq!(kind, SocketKind::Udp);

    let was_nonblock = sockets.with_socket_mut(h, |mut e| {
        let was = e.options.nonblock;
        e.options.nonblock = true;
        (e, was)
    });
    assert!(!was_nonblock);
    assert!(sockets.with_socket(h, |e| e.options.nonblock));
}

#[test]
fn general_options_defaults_and_timeouts() {
    let mut opts = GeneralOptions::new();
    assert!(!opts.nonblocking());
    assert!(!opts.reuse_address());
    // zero means "wait forever"
    assert_eq!(opts.send_timeout(), None);
    assert_eq!(opts.recv_timeout(), None);

    assert!(opts.set_option_inner(SetSocketOption::SendTimeout(250)));
    assert!(opts.set_option_inner(SetSocketOption::ReceiveTimeout(100_000_000)));
    assert_eq!(opts.send_timeout(), Some(250));
    assert_eq!(opts.recv_timeout(), Some(100_000_000));

    assert!(opts.set_option_inner(SetSocketOption::NonBlocking(true)));
    assert!(opts.nonblocking());
    assert!(opts.set_option_inner(SetSocketOption::ReuseAddress(true)));
    assert!(opts.reuse_address());

    opts.set_externally_driven(true);
    assert!(opts.externally_driven);
}

#[test]
fn socket_options_surface() {
    let mut opts = GeneralOptions::new();

    // the pending error always reads as zero
    assert_eq!(opts.get_option_inner(GetSocketOption::Error), Some(SocketOptionValue::Error(0)));
    assert_eq!(
        opts.get_option_inner(GetSocketOption::NonBlocking),
        Some(SocketOptionValue::NonBlocking(false))
    );
    assert_eq!(
        opts.get_option_inner(GetSocketOption::SendTimeout),
        Some(SocketOptionValue::SendTimeout(0))
    );

    // buffer sizes are accepted and currently change nothing
    assert!(opts.set_option_inner(SetSocketOption::SendBuffer(65536)));
    assert!(opts.set_option_inner(SetSocketOption::ReceiveBuffer(65536)));
    assert_eq!(opts.get_option_inner(GetSocketOption::SendBuffer), None);
    assert_eq!(opts.get_option_inner(GetSocketOption::ReceiveBuffer), None);

    // an option of another layer reports "not handled" rather than failing
    assert!(!opts.set_option_inner(SetSocketOption::KeepAlive(true)));
    assert_eq!(opts.get_option_inner(GetSocketOption::KeepAlive), None);
}

#[test]
fn listen_table_backlog_semantics() {
    let mut table = ListenTable::new();

    assert_eq!(table.listen(80, 2), Ok(()));
    // one entry per port
    assert_eq!(table.listen(80, 2), Err(SysError::AddressInUse));

    // accept on an empty backlog is the transient-busy class
    assert_eq!(table.accept(80), Err(SysError::WouldBlock));

    assert_eq!(table.push(80, 11), Ok(()));
    assert_eq!(table.push(80, 12), Ok(()));
    // the backlog is bounded: overflow is rejected, not grown away
    assert_eq!(table.push(80, 13), Err(SysError::Busy));

    // FIFO order
    assert_eq!(table.accept(80), Ok(11));
    assert_eq!(table.push(80, 13), Ok(()));
    assert_eq!(table.accept(80), Ok(12));
    assert_eq!(table.accept(80), Ok(13));
    assert_eq!(table.accept(80), Err(SysError::WouldBlock));

    // a port that is not listening is a caller error
    assert_eq!(table.push(81, 9), Err(SysError::InvalidArgument));
    assert_eq!(table.accept(81), Err(SysError::InvalidArgument));

    // close discards pending connections
    assert_eq!(table.push(80, 14), Ok(()));
    assert_eq!(table.close(80), Ok(()));
    assert_eq!(table.accept(80), Err(SysError::InvalidArgument));
    assert_eq!(table.close(80), Err(SysError::InvalidArgument));
}

#[test]
fn sys_error_names() {
    assert_eq!(SysError::WouldBlock.as_str(), "would block");
    assert_eq!(SysError::TimedOut.as_str(), "timed out");
    assert_eq!(SysError::AddressInUse.as_str(), "address in use");
    assert_eq!(SysError::Protocol(104).as_str(), "protocol error");
}
