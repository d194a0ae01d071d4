use tezedge::dns_service::{
    hints_for, select_internet_addresses, AddrInfo, AddrInfoHints, DnsLookupError,
    DnsServiceDefault,
};
use tezedge::net::{to_uniform, SocketAddr, SocketAddrV4, SocketAddrV6};
use tezedge::peer_connection_closed::PeerConnectionClosedAction;
use tezedge::websocket::{LogSchedule, WebsocketHandler, WebsocketStats, LOG_INTERVAL};

fn v4(ip: u32, port: u16) -> SocketAddr {
    SocketAddr::V4(SocketAddrV4 { ip, port })
}

fn v6(ip: u128, port: u16) -> SocketAddr {
    SocketAddr::V6(SocketAddrV6 { ip, port, flowinfo: 0, scope_id: 0 })
}

#[test]
fn addresses_take_the_uniform_form() {
    assert_eq!(to_uniform(v4(0x7f00_0001, 9732)), v6(0xffff_7f00_0001, 9732));
    assert_eq!(to_uniform(v6(1, 9732)), v6(1, 9732));
    let scoped =
        SocketAddr::V6(SocketAddrV6 { ip: 1, port: 2, flowinfo: 3, scope_id: 4 });
    assert_eq!(to_uniform(scoped), scoped);
    let once = to_uniform(v4(0x0a01_0203, 80));
    assert_eq!(to_uniform(once), once);
    assert_eq!(once, v6(0xffff_0a01_0203, 80));
}

#[test]
fn only_internet_addresses_are_selected() {
    let found = vec![
        Some(AddrInfo { address: 2, sockaddr: v4(0x0102_0304, 80) }),
        None,
        Some(AddrInfo { address: 1, sockaddr: v4(0x0909_0909, 80) }),
        Some(AddrInfo { address: 10, sockaddr: v6(2, 80) }),
    ];
    assert_eq!(
        select_internet_addresses(&found, 2, 10),
        vec![v6(0xffff_0102_0304, 80), v6(2, 80)]
    );
    assert!(select_internet_addresses(&vec![], 2, 10).is_empty());
}

#[test]
fn lookups_ask_for_stream_sockets() {
    assert_eq!(
        hints_for(1),
        AddrInfoHints { socktype: 1, protocol: 0, address: 0, flags: 0 }
    );
    let service = DnsServiceDefault::new();
    assert_eq!(
        service.hints(),
        hints_for(i32::from(dns_lookup::SockType::Stream))
    );
    assert_eq!(service.service_name(9732), "9732");
    assert_eq!(service.service_name(0), "0");
    assert_eq!(DnsServiceDefault::default(), service);
}

#[test]
fn names_are_resolved_by_what_was_found() {
    let mut service = DnsServiceDefault::new();
    let inet = i32::from(dns_lookup::AddrFamily::Inet);
    let inet6 = i32::from(dns_lookup::AddrFamily::Inet6);
    let unix = i32::from(dns_lookup::AddrFamily::Unix);
    let found = vec![
        Some(AddrInfo { address: inet6, sockaddr: v6(2, 80) }),
        Some(AddrInfo { address: unix, sockaddr: v6(3, 80) }),
        Some(AddrInfo { address: inet, sockaddr: v4(0x0102_0304, 80) }),
    ];
    assert_eq!(
        service.resolve_dns_name_to_peer_address(Ok(found)).unwrap(),
        vec![v6(2, 80), v6(0xffff_0102_0304, 80)]
    );
    let error = service.resolve_dns_name_to_peer_address(Err(DnsLookupError::NoName));
    assert!(matches!(error, Err(DnsLookupError::NoName)));
}

#[test]
fn a_closed_connection_is_always_dealt_with() {
    let action = PeerConnectionClosedAction { address: v4(0x0102_0304, 80) };
    assert!(action.is_enabled(&"connected"));
    assert!(action.is_enabled(&0u8));
}

#[test]
fn the_websocket_counts_messages_between_logs() {
    assert_eq!(WebsocketHandler::name(), "websocket_handler");
    let mut handler = WebsocketHandler::create_args();
    assert_eq!(LOG_INTERVAL, 60);
    assert_eq!(handler.pre_start(), LogSchedule { initial_delay: 30, interval: 60 });
    handler.recv();
    handler.recv();
    assert_eq!(
        handler.receive(5),
        WebsocketStats { actor_received_messages_count: 2, clients: 5 }
    );
    assert_eq!(
        handler.receive(5),
        WebsocketStats { actor_received_messages_count: 0, clients: 5 }
    );
    handler.recv();
    assert_eq!(handler.get_and_clear_actor_received_messages_count(), 1);
    assert_eq!(handler.get_and_clear_actor_received_messages_count(), 0);
}
