use axnet::dns::{dns_query, DnsAnswer, DnsEngine, DnsQueryType, DnsSocket, MAX_DNS_NAME_LEN};
use axnet::err::SysError;
use axnet::ip::Ipv4Addr;
use axnet::wrapper::SocketSetWrapper;

fn addr(a: u8, b: u8, c: u8, d: u8) -> Ipv4Addr {
    Ipv4Addr::from_octets(a, b, c, d)
}

#[test]
fn resolve_pending_then_ready() {
    let mut sockets = SocketSetWrapper::new();
    let mut engine = DnsEngine::new(4);
    let resolved = vec![addr(93, 184, 216, 34)];
    let answers = vec![
        DnsAnswer::Pending,
        DnsAnswer::Pending,
        DnsAnswer::Resolved(resolved.clone()),
    ];

    let baseline = sockets.live_sockets();
    let r = dns_query(&mut sockets, &mut engine, "example.org", answers);
    assert_eq!(r, Ok(resolved));
    // the transient query socket and its slot are gone again
    assert_eq!(sockets.live_sockets(), baseline);
    assert_eq!(engine.active_queries, 0);
}

#[test]
fn resolve_failure_is_connection_refused() {
    let mut sockets = SocketSetWrapper::new();
    let mut engine = DnsEngine::new(4);
    let answers = vec![DnsAnswer::Pending, DnsAnswer::Failed];

    let r = dns_query(&mut sockets, &mut engine, "example.invalid", answers);
    assert_eq!(r, Err(SysError::ConnectionRefused));
    assert_eq!(engine.active_queries, 0);
    assert_eq!(sockets.live_sockets(), 0);
}

#[test]
fn resolve_empty_name_leaks_nothing() {
    let mut sockets = SocketSetWrapper::new();
    let mut engine = DnsEngine::new(4);

    let baseline = sockets.live_sockets();
    let r = dns_query(&mut sockets, &mut engine, "", vec![]);
    assert_eq!(r, Err(SysError::InvalidArgument));
    // the query socket count returned to its baseline
    assert_eq!(sockets.live_sockets(), baseline);
    assert_eq!(engine.active_queries, 0);
}

#[test]
fn resolve_overlength_name_is_invalid() {
    let mut sockets = SocketSetWrapper::new();
    let mut engine = DnsEngine::new(4);

    let long_name = "a".repeat(MAX_DNS_NAME_LEN + 1);
    let r = dns_query(&mut sockets, &mut engine, &long_name, vec![]);
    assert_eq!(r, Err(SysError::InvalidArgument));
    assert_eq!(sockets.live_sockets(), 0);

    // the longest acceptable name is still admitted: four labels at the
    // label bound, dots between them, 255 characters in all
    let label = "a".repeat(63);
    let ok_name = [label.as_str(), label.as_str(), label.as_str(), label.as_str()].join(".");
    assert_eq!(ok_name.len(), MAX_DNS_NAME_LEN);
    let r = dns_query(
        &mut sockets,
        &mut engine,
        &ok_name,
        vec![DnsAnswer::Resolved(vec![addr(1, 2, 3, 4)])],
    );
    assert_eq!(r, Ok(vec![addr(1, 2, 3, 4)]));
}

#[test]
fn resolve_rejects_malformed_labels() {
    let mut sockets = SocketSetWrapper::new();
    let mut engine = DnsEngine::new(4);
    let answer = || vec![DnsAnswer::Resolved(vec![addr(1, 2, 3, 4)])];

    // empty labels are refused wherever they sit
    assert_eq!(dns_query(&mut sockets, &mut engine, "bad..name", vec![]), Err(SysError::InvalidArgument));
    assert_eq!(dns_query(&mut sockets, &mut engine, ".leading", vec![]), Err(SysError::InvalidArgument));
    assert_eq!(dns_query(&mut sockets, &mut engine, ".", vec![]), Err(SysError::InvalidArgument));
    assert_eq!(dns_query(&mut sockets, &mut engine, "dot..", vec![]), Err(SysError::InvalidArgument));

    // one trailing dot is stripped, not refused
    assert_eq!(dns_query(&mut sockets, &mut engine, "example.org.", answer()), Ok(vec![addr(1, 2, 3, 4)]));

    // a label above the label bound is refused; at the bound it passes
    let long_label = format!("{}.org", "a".repeat(64));
    assert_eq!(dns_query(&mut sockets, &mut engine, &long_label, vec![]), Err(SysError::InvalidArgument));
    let edge_label = format!("{}.org", "a".repeat(63));
    assert_eq!(dns_query(&mut sockets, &mut engine, &edge_label, answer()), Ok(vec![addr(1, 2, 3, 4)]));

    // nothing leaked along the way
    assert_eq!(sockets.live_sockets(), 0);
    assert_eq!(engine.active_queries, 0);
}

#[test]
fn query_slots_exhaust_and_recycle() {
    let mut engine = DnsEngine::new(3);

    // take every slot
    for _ in 0..3 {
        assert_eq!(engine.start_query("example.org"), Ok(()));
    }
    // the next concurrent query is refused
    assert_eq!(engine.start_query("example.org"), Err(SysError::Busy));
    assert_eq!(engine.active_queries, 3);

    // once any one completes, a new query succeeds
    engine.finish_query();
    assert_eq!(engine.start_query("example.org"), Ok(()));
    assert_eq!(engine.active_queries, 3);
}

#[test]
fn full_engine_refuses_resolution_with_busy() {
    let mut sockets = SocketSetWrapper::new();
    let mut engine = DnsEngine::new(1);
    assert_eq!(engine.start_query("example.org"), Ok(()));

    let r = dns_query(&mut sockets, &mut engine, "example.net", vec![]);
    assert_eq!(r, Err(SysError::Busy));
    assert_eq!(sockets.live_sockets(), 0);

    // the slot check happens after the name check
    let r = dns_query(&mut sockets, &mut engine, "", vec![]);
    assert_eq!(r, Err(SysError::InvalidArgument));
}

#[test]
fn dns_socket_registers_and_releases() {
    let mut sockets = SocketSetWrapper::new();
    let mut engine = DnsEngine::new(2);

    let socket = DnsSocket::new(&mut sockets);
    assert_eq!(sockets.live_sockets(), 1);

    socket.update_servers(&mut engine, &vec![addr(9, 9, 9, 9), addr(8, 8, 8, 8)]);
    assert_eq!(engine.servers.len(), 2);

    let r = socket.query(
        &mut engine,
        "example.org",
        DnsQueryType::A,
        vec![DnsAnswer::Resolved(vec![addr(5, 6, 7, 8)])],
    );
    assert_eq!(r, Ok(vec![addr(5, 6, 7, 8)]));
    assert_eq!(engine.active_queries, 0);

    socket.close(&mut sockets);
    assert_eq!(sockets.live_sockets(), 0);
}
