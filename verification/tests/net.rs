use opereon::net::config::Config;
use opereon::net::connection::{ConnAction, ConnKind, ConnState, ConnectionCore};
use opereon::net::discovery::{discovery_schedule, on_package, DiscoveryPackage, DiscoverySend};
use opereon::net::server::{key_list, response_action, ProbeAction, ResponseAction, SendRoute, ServerBook};
use opereon::net::{NetMessage, NodeAddr, NodeInfo, Timestamp};

fn node(id: u128, secs: i64) -> NodeInfo {
    NodeInfo {
        id,
        name: Some(format!("node{}", id)),
        ipv4: vec![NodeAddr { ip: 0x7f00_0001, port: 6000 }],
        time: Timestamp { secs, nanos: 0 },
    }
}

fn kinds(actions: &[ConnAction]) -> Vec<&'static str> {
    actions
        .iter()
        .map(|a| match a {
            ConnAction::SendHandshake => "SendHandshake",
            ConnAction::SendHandshakeOk => "SendHandshakeOk",
            ConnAction::SendProbe => "SendProbe",
            ConnAction::SendProbeResp => "SendProbeResp",
            ConnAction::SendPong => "SendPong",
            ConnAction::AddKnownNode(_) => "AddKnownNode",
            ConnAction::ConnectResult(true) => "ConnectOk",
            ConnAction::ConnectResult(false) => "ConnectFailed",
            ConnAction::ProbeResponded => "ProbeResponded",
            ConnAction::Heartbeat => "Heartbeat",
            ConnAction::MessageReceived { .. } => "MessageReceived",
            ConnAction::AckReceived { .. } => "AckReceived",
            ConnAction::Unregister => "Unregister",
            ConnAction::CloseStream => "CloseStream",
        })
        .collect()
}

#[test]
fn outgoing_handshake_then_data() {
    let mut c = ConnectionCore::new(7, ConnKind::Outgoing);
    assert!(c.is_disconnected() && c.is_outgoing());
    assert_eq!(kinds(&c.connect()), vec!["SendHandshake"]);
    assert!(c.is_connecting());
    assert_eq!(kinds(&c.handle(NetMessage::HandshakeOk)), vec!["ConnectOk"]);
    assert!(c.is_connected());
    let acts = c.handle(NetMessage::new_request(vec![1, 2, 3], 9));
    match &acts[..] {
        [ConnAction::MessageReceived { payload, sender, ack }] => {
            assert_eq!(payload, &vec![1, 2, 3]);
            assert_eq!(*sender, 7);
            assert_eq!(*ack, Some(9));
        }
        _ => panic!("unexpected actions"),
    }
    assert_eq!(kinds(&c.handle(NetMessage::Pong)), vec!["Heartbeat"]);
    assert!(c.is_connected());
}

#[test]
fn incoming_handshake_learns_the_caller() {
    let mut c = ConnectionCore::new(0, ConnKind::Incoming);
    assert_eq!(kinds(&c.connect()), Vec::<&str>::new());
    let mut c = ConnectionCore::new(0, ConnKind::Incoming);
    let acts = c.handle(NetMessage::Handshake(node(42, 1)));
    assert_eq!(kinds(&acts), vec!["AddKnownNode", "SendHandshakeOk"]);
    assert_eq!(*c.id(), 42);
    assert_eq!(c.state, ConnState::Connected);
    assert_eq!(kinds(&c.handle(NetMessage::Ping)), vec!["Heartbeat", "SendPong"]);
}

#[test]
fn handshake_from_nil_node_aborts() {
    let mut c = ConnectionCore::new(0, ConnKind::Incoming);
    let acts = c.handle(NetMessage::Handshake(NodeInfo::empty(Timestamp { secs: 0, nanos: 0 })));
    assert_eq!(kinds(&acts), vec!["Unregister", "CloseStream"]);
    assert_eq!(c.state, ConnState::Aborted);
}

#[test]
fn violation_during_connect_fails_the_connect() {
    let mut c = ConnectionCore::new(3, ConnKind::Outgoing);
    c.connect();
    let acts = c.handle(NetMessage::new_message(vec![0]));
    assert_eq!(kinds(&acts), vec!["ConnectFailed", "Unregister", "CloseStream"]);
    assert_eq!(c.state, ConnState::Aborted);
    // a closed connection stays down
    let acts = c.handle(NetMessage::Ping);
    assert_eq!(kinds(&acts), vec!["Unregister", "CloseStream"]);
    assert_eq!(c.state, ConnState::Aborted);
}

#[test]
fn probe_round_trip() {
    let mut c = ConnectionCore::new(5, ConnKind::Outgoing);
    assert_eq!(kinds(&c.probe()), vec!["SendProbe"]);
    assert_eq!(c.state, ConnState::AwaitingProbeResp);
    assert_eq!(kinds(&c.handle(NetMessage::ProbeResp)), vec!["ProbeResponded"]);
    assert!(c.is_disconnected());
    let mut d = ConnectionCore::new(5, ConnKind::Incoming);
    assert_eq!(kinds(&d.handle(NetMessage::Probe)), vec!["SendProbeResp"]);
    assert_eq!(kinds(&d.handle(NetMessage::ProbeResp)), vec!["Unregister", "CloseStream"]);
}

#[test]
fn idle_timeout_only_ends_fresh_connections() {
    let mut c = ConnectionCore::new(1, ConnKind::Incoming);
    assert_eq!(kinds(&c.idle_timeout()), vec!["Unregister", "CloseStream"]);
    assert_eq!(c.state, ConnState::Aborted);
    let mut d = ConnectionCore::new(1, ConnKind::Outgoing);
    d.connect();
    assert!(d.idle_timeout().is_empty());
    assert!(d.is_connecting());
    let mut e = ConnectionCore::new(1, ConnKind::Outgoing);
    assert_eq!(kinds(&e.close()), vec!["Unregister", "CloseStream"]);
    assert_eq!(e.state, ConnState::Closed);
}

#[test]
fn response_decisions() {
    match response_action(Some(vec![1]), Some(4)) {
        ResponseAction::SendAck { ack, payload } => {
            assert_eq!(ack, 4);
            assert_eq!(payload, vec![1]);
        }
        _ => panic!("expected an ack"),
    }
    assert!(matches!(response_action(None, Some(4)), ResponseAction::MissingResponse));
    assert!(matches!(response_action(Some(vec![]), None), ResponseAction::UnexpectedResponse));
    assert!(matches!(response_action(None, None), ResponseAction::Nothing));
}

#[test]
fn server_book_keeps_the_newest_description() {
    let mut b = ServerBook::new(node(1, 10));
    assert_eq!(b.this_node(), 1);
    b.add_known_node(node(2, 5));
    let mut newer = node(2, 6);
    newer.name = Some("renamed".to_string());
    b.add_known_node(newer);
    assert_eq!(b.known_node(2).unwrap().name.as_deref(), Some("renamed"));
    let mut older = node(2, 1);
    older.name = Some("old".to_string());
    b.add_known_nodes(vec![older, node(3, 0)]);
    assert_eq!(b.known_node(2).unwrap().name.as_deref(), Some("renamed"));
    let mut ids = b.known_node_ids();
    ids.sort();
    assert_eq!(ids, vec![1, 2, 3]);
    let mut targets = b.broadcast_targets();
    targets.sort();
    assert_eq!(targets, vec![2, 3]);
    assert!(b.known_node(9).is_none());
}

#[test]
fn server_book_routes_and_acks() {
    let mut b = ServerBook::new(node(1, 0));
    assert_eq!(b.send_route(2), SendRoute::UnknownNode);
    b.add_known_node(node(2, 0));
    b.add_known_node(node(3, 0));
    let addr = NodeAddr { ip: 10, port: 20 };
    assert!(b.add_reachable_node(2, addr));
    assert!(!b.add_reachable_node(2, addr));
    assert_eq!(b.reachable_node_ids(), vec![2]);
    assert_eq!(b.send_route(2), SendRoute::Connect(addr));
    assert_eq!(b.send_route(2), SendRoute::AwaitConnect);
    assert_eq!(b.send_route(3), SendRoute::ProbeThenConnect);
    assert!(!b.add_connection(2));
    assert!(b.add_connection(2));
    b.remove_connection(2);
    assert_eq!(b.probe_action(2, &node(2, 0)), ProbeAction::Skip);
    b.remove_connection(2);
    assert_eq!(b.probe_action(2, &node(2, 0)), ProbeAction::CheckAddr(addr));
    assert!(b.remove_reachable_node(2));
    assert!(!b.remove_reachable_node(2));
    assert_eq!(b.probe_action(2, &node(2, 0)), ProbeAction::ProbeAll);
    assert_eq!(b.probe_action(1, &node(1, 0)), ProbeAction::Skip);
    let mut bare = node(4, 0);
    bare.ipv4.clear();
    assert_eq!(b.probe_action(4, &bare), ProbeAction::Skip);

    let a0 = b.begin_request();
    let a1 = b.begin_request();
    assert_eq!((a0, a1), (0, 1));
    assert!(b.take_ack(a1));
    assert!(!b.take_ack(a1));
    assert!(b.take_ack(a0));
}

#[test]
fn key_list_lists_each_key_once() {
    let mut m = std::collections::HashMap::new();
    m.insert(5u128, "a");
    m.insert(9u128, "b");
    let mut ks = key_list(&m);
    ks.sort();
    assert_eq!(ks, vec![5, 9]);
}

#[test]
fn discovery_answers_requests_from_others_only() {
    let src = NodeAddr { ip: 0x0a00_0002, port: 5555 };
    let a = on_package(1, 6000, DiscoveryPackage::new_request(node(2, 0)), src);
    assert_eq!(a.answer_to, Some(NodeAddr { ip: 0x0a00_0002, port: 6000 }));
    assert_eq!(a.learn.id, 2);
    let b = on_package(2, 6000, DiscoveryPackage::new_request(node(2, 0)), src);
    assert_eq!(b.answer_to, None);
    let c = on_package(1, 6000, DiscoveryPackage::new_response(node(3, 0)), src);
    assert!(!DiscoveryPackage::new_response(node(3, 0)).is_request());
    assert_eq!(c.answer_to, None);
    assert_eq!(c.learn.id, 3);
}

#[test]
fn discovery_schedule_rounds_over_interfaces() {
    let plan = discovery_schedule(2, 3, 100);
    let expected: Vec<DiscoverySend> = vec![
        DiscoverySend { iface: 0, delay_ms: 100 },
        DiscoverySend { iface: 1, delay_ms: 100 },
        DiscoverySend { iface: 2, delay_ms: 100 },
        DiscoverySend { iface: 0, delay_ms: 200 },
        DiscoverySend { iface: 1, delay_ms: 200 },
        DiscoverySend { iface: 2, delay_ms: 200 },
    ];
    assert_eq!(plan, expected);
    assert!(discovery_schedule(0, 3, 100).is_empty());
}

#[test]
fn timestamps_order_by_seconds_then_nanos() {
    let a = Timestamp { secs: 1, nanos: 5 };
    let b = Timestamp { secs: 1, nanos: 6 };
    let c = Timestamp { secs: 2, nanos: 0 };
    assert!(a.is_before(&b) && b.is_before(&c) && a.is_before(&c));
    assert!(!b.is_before(&a) && !a.is_before(&a));
    assert!(NodeInfo::empty(a).is_empty());
    assert!(!node(1, 0).is_empty());
}

#[test]
fn standard_network_settings() {
    let mut n = node(1, 0);
    n.ipv4 = vec![NodeAddr { ip: 1, port: 1 }, NodeAddr { ip: 2, port: 2 }];
    let mut c = Config::standard(n, vec![NodeAddr { ip: 9, port: 0 }]);
    assert_eq!(c.listen_port(), 6666);
    assert_eq!(c.listen_addr(), NodeAddr { ip: 0, port: 6666 });
    assert_eq!(c.multicast_addr(), (224u32 << 24) | (6 << 16) | (6 << 8) | 6);
    assert_eq!(c.multicast_ipv4_ifaces().len(), 1);
    assert_eq!((c.discovery_interval(), c.discovery_count()), (1000, 3));
    assert_eq!((c.probe_node_timeout(), c.probe_node_interval()), (500, 5000));
    assert_eq!((c.idle_connection_timeout(), c.connection_heartbeat_interval()), (2000, 2000));
    assert_eq!((c.connection_timeout(), c.default_ack_timeout()), (1000, 2000));
    assert_eq!(c.this_node().ipv4, vec![NodeAddr { ip: 1, port: 6666 }, NodeAddr { ip: 2, port: 6666 }]);
    c.this_node_mut().name = None;
    assert!(c.this_node().name.is_none());
}
