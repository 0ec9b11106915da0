use keysync::server::{run, HubAction, HubEvent, PeerAddr, RunReport, Server, ServerError, ACCEPT_POLL_MS};

fn peer(n: u16) -> PeerAddr {
    PeerAddr { v6: false, host: 0x7f00_0001, port: 40_000 + n }
}

#[test]
fn new_hub_has_no_peers() {
    let server = Server::new();
    assert_eq!(server.len(), 0);
    assert_eq!(server.peers(), Vec::<PeerAddr>::new());
    assert!(!server.contains(peer(1)));
    assert_eq!(server.broadcast(Some(peer(1))), Vec::<PeerAddr>::new());
}

#[test]
fn frame_from_a_goes_to_b_and_c_but_not_to_a() {
    let (a, b, c) = (peer(1), peer(2), peer(3));
    let mut server = Server::new();
    assert!(server.register(a));
    assert!(server.register(b));
    assert!(server.register(c));
    assert_eq!(server.step(HubEvent::Received(a)), HubAction::Deliver(vec![b, c]));
    assert_eq!(server.step(HubEvent::Received(b)), HubAction::Deliver(vec![a, c]));
    assert_eq!(server.step(HubEvent::Received(c)), HubAction::Deliver(vec![a, b]));
    assert_eq!(server.peers(), vec![a, b, c]);
}

#[test]
fn broadcast_to_c_completes_when_b_fails_mid_broadcast() {
    let (a, b, c) = (peer(1), peer(2), peer(3));
    let mut server = Server::new();
    server.register(a);
    server.register(b);
    server.register(c);
    let targets = server.broadcast(Some(a));
    assert_eq!(targets, vec![b, c]);
    assert_eq!(server.step(HubEvent::WriteFailed(b)), HubAction::Release(b));
    assert!(targets.contains(&c));
    assert_eq!(server.peers(), vec![a, c]);
    assert_eq!(server.step(HubEvent::Received(a)), HubAction::Deliver(vec![c]));
}

#[test]
fn broadcast_without_sender_reaches_everyone() {
    let mut server = Server::new();
    server.register(peer(1));
    server.register(peer(2));
    assert_eq!(server.broadcast(None), vec![peer(1), peer(2)]);
}

#[test]
fn sender_that_is_not_registered_reaches_everyone() {
    let mut server = Server::new();
    server.register(peer(1));
    server.register(peer(2));
    assert_eq!(server.broadcast(Some(peer(9))), vec![peer(1), peer(2)]);
}

#[test]
fn registering_twice_keeps_one_entry() {
    let mut server = Server::new();
    assert!(server.register(peer(1)));
    assert!(server.register(peer(2)));
    assert!(!server.register(peer(1)));
    assert_eq!(server.peers(), vec![peer(1), peer(2)]);
    assert_eq!(server.len(), 2);
}

#[test]
fn addresses_differ_by_family_host_and_port() {
    let mut server = Server::new();
    let base = PeerAddr { v6: false, host: 1, port: 1 };
    assert!(server.register(base));
    assert!(server.register(PeerAddr { v6: true, host: 1, port: 1 }));
    assert!(server.register(PeerAddr { v6: false, host: 2, port: 1 }));
    assert!(server.register(PeerAddr { v6: false, host: 1, port: 2 }));
    assert_eq!(server.len(), 4);
    assert_eq!(server.broadcast(Some(base)).len(), 3);
}

#[test]
fn deregistering_removes_only_that_peer() {
    let mut server = Server::new();
    server.register(peer(1));
    server.register(peer(2));
    server.register(peer(3));
    assert!(server.deregister(peer(2)));
    assert!(!server.deregister(peer(2)));
    assert_eq!(server.peers(), vec![peer(1), peer(3)]);
    assert!(!server.contains(peer(2)));
    assert!(server.contains(peer(3)));
}

#[test]
fn each_event_has_its_action() {
    let mut server = Server::new();
    assert_eq!(server.step(HubEvent::NothingPending), HubAction::Sleep(ACCEPT_POLL_MS));
    assert_eq!(ACCEPT_POLL_MS, 100);
    assert_eq!(server.step(HubEvent::Accepted(peer(1))), HubAction::Serve(peer(1)));
    assert!(server.contains(peer(1)));
    assert_eq!(server.step(HubEvent::Received(peer(1))), HubAction::Deliver(vec![]));
    assert_eq!(server.step(HubEvent::Closed(peer(1))), HubAction::Release(peer(1)));
    assert!(!server.contains(peer(1)));
    assert_eq!(server.step(HubEvent::AcceptFailed), HubAction::Fail(ServerError::AcceptFailed));
    assert_eq!(server.step(HubEvent::Shutdown), HubAction::Stop);
}

#[test]
fn run_relays_until_shutdown() {
    let (a, b, c) = (peer(1), peer(2), peer(3));
    let events = vec![
        HubEvent::Accepted(a),
        HubEvent::NothingPending,
        HubEvent::Accepted(b),
        HubEvent::Received(a),
        HubEvent::Accepted(c),
        HubEvent::Received(a),
        HubEvent::Closed(b),
        HubEvent::Received(c),
        HubEvent::Shutdown,
        HubEvent::Received(a),
    ];
    let report = run(&events);
    assert_eq!(
        report,
        RunReport {
            actions: vec![
                HubAction::Serve(a),
                HubAction::Sleep(100),
                HubAction::Serve(b),
                HubAction::Deliver(vec![b]),
                HubAction::Serve(c),
                HubAction::Deliver(vec![b, c]),
                HubAction::Release(b),
                HubAction::Deliver(vec![a]),
                HubAction::Stop,
            ],
            result: Ok(()),
        }
    );
}

#[test]
fn run_fails_when_the_listener_fails() {
    let events = vec![HubEvent::Accepted(peer(1)), HubEvent::AcceptFailed, HubEvent::Shutdown];
    let report = run(&events);
    assert_eq!(report.result, Err(ServerError::AcceptFailed));
    assert_eq!(
        report.actions,
        vec![HubAction::Serve(peer(1)), HubAction::Fail(ServerError::AcceptFailed)]
    );
}

#[test]
fn run_on_nothing_does_nothing() {
    let report = run(&Vec::new());
    assert_eq!(report.actions, Vec::<HubAction>::new());
    assert_eq!(report.result, Ok(()));
}

#[test]
fn run_without_stop_handles_every_event() {
    let events = vec![HubEvent::Accepted(peer(1)), HubEvent::Accepted(peer(2)), HubEvent::Received(peer(2))];
    let report = run(&events);
    assert_eq!(report.result, Ok(()));
    assert_eq!(report.actions.len(), 3);
    assert_eq!(report.actions[2], HubAction::Deliver(vec![peer(1)]));
}
