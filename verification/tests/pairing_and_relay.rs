use waterleakage::{
    Pairing, PairingState, PortPairing, RelayAction, RelayEvent, RelayOutcome, RelayPump, Side,
    Tunnel, Visitor,
};

fn pair(tunnel: u64, visitor: u64) -> Option<Pairing> {
    Some(Pairing { tunnel, visitor, token: 1_000 + tunnel as u128 })
}

#[test]
fn a_new_port_waits_for_a_tunnel() {
    let port = PortPairing::new();
    assert_eq!(port.state(), PairingState::WaitingForTunnel);
    assert_eq!(port.active(), None);
    assert_eq!(port.waiting(), (0, 0));
}

#[test]
fn tunnel_then_visitor_are_paired() {
    let mut port = PortPairing::new();
    assert_eq!(port.tunnel_arrived(1, 1001), None);
    assert_eq!(port.state(), PairingState::WaitingForVisitor);
    assert_eq!(port.visitor_arrived(100, 0, 30), pair(1, 100));
    assert_eq!(port.state(), PairingState::Paired);
    assert_eq!(port.active(), pair(1, 100));
    assert_eq!(port.waiting(), (0, 0));
}

#[test]
fn visitors_block_until_a_tunnel_arrives() {
    let mut port = PortPairing::new();
    assert_eq!(port.visitor_arrived(100, 0, 30), None);
    assert_eq!(port.visitor_arrived(101, 1, 30), None);
    assert_eq!(port.state(), PairingState::WaitingForTunnel);
    assert_eq!(port.waiting(), (0, 2));
    assert_eq!(port.tunnel_arrived(1, 1001), pair(1, 100));
    assert_eq!(port.state(), PairingState::Paired);
    assert_eq!(port.waiting(), (0, 1));
}

#[test]
fn lines_are_served_first_come_first_served() {
    let mut port = PortPairing::new();
    for visitor in [100, 101, 102] {
        assert_eq!(port.visitor_arrived(visitor, 0, 1_000), None);
    }
    assert_eq!(port.tunnel_arrived(1, 1001), pair(1, 100));
    assert_eq!(port.tunnel_arrived(2, 1002), None);
    assert_eq!(port.tunnel_arrived(3, 1003), None);
    assert_eq!(port.waiting(), (2, 2));
    assert_eq!(port.relay_finished(), pair(2, 101));
    assert_eq!(port.relay_finished(), pair(3, 102));
    assert_eq!(port.relay_finished(), None);
    assert_eq!(port.state(), PairingState::WaitingForTunnel);
    assert_eq!(port.waiting(), (0, 0));
}

#[test]
fn relay_end_returns_to_waiting() {
    let mut port = PortPairing::new();
    port.tunnel_arrived(1, 1001);
    port.tunnel_arrived(2, 1002);
    port.visitor_arrived(100, 0, 5);
    assert_eq!(port.state(), PairingState::Paired);
    assert_eq!(port.relay_finished(), None);
    assert_eq!(port.state(), PairingState::WaitingForVisitor);
    assert_eq!(port.active(), None);
    assert_eq!(port.waiting(), (1, 0));
    assert_eq!(port.relay_finished(), None);
    assert_eq!(port.waiting(), (1, 0));
}

#[test]
fn visitors_past_their_deadline_are_dropped() {
    let mut port = PortPairing::new();
    port.visitor_arrived(100, 0, 10);
    port.visitor_arrived(101, 5, 100);
    port.visitor_arrived(102, 6, 3);
    port.visitor_arrived(103, 7, 13);
    assert!(port.expire_visitors(9).is_empty());
    assert_eq!(port.expire_visitors(10), vec![Visitor { id: 102, deadline: 9 }]);
    assert_eq!(
        port.expire_visitors(21),
        vec![Visitor { id: 100, deadline: 10 }, Visitor { id: 103, deadline: 20 }]
    );
    assert_eq!(port.waiting(), (0, 1));
    assert_eq!(port.tunnel_arrived(1, 1001), pair(1, 101));
}

#[test]
fn deadline_saturates() {
    let mut port = PortPairing::new();
    port.visitor_arrived(100, u128::MAX - 1, 5);
    assert!(port.expire_visitors(u128::MAX).is_empty());
    assert_eq!(port.waiting(), (0, 1));
}

#[test]
fn a_session_that_is_gone_takes_its_tunnels_out_of_line() {
    let mut port = PortPairing::new();
    port.tunnel_arrived(1, 77);
    port.visitor_arrived(100, 0, 10);
    port.tunnel_arrived(2, 77);
    port.tunnel_arrived(3, 88);
    port.tunnel_arrived(4, 77);
    assert_eq!(port.waiting(), (3, 0));
    assert!(port.session_gone(99).is_empty());
    assert_eq!(
        port.session_gone(77),
        vec![Tunnel { id: 2, token: 77 }, Tunnel { id: 4, token: 77 }]
    );
    assert_eq!(port.waiting(), (1, 0));
    assert_eq!(port.active(), Some(Pairing { tunnel: 1, visitor: 100, token: 77 }));
    port.visitor_arrived(101, 0, 10);
    assert_eq!(port.relay_finished(), Some(Pairing { tunnel: 3, visitor: 101, token: 88 }));
    assert!(port.session_gone(77).is_empty());
}

#[test]
fn pump_passes_bytes_to_the_other_side() {
    let mut pump = RelayPump::new();
    assert_eq!(pump, RelayPump { from_tunnel: true, from_visitor: true, outcome: None });
    let action = pump.step(RelayEvent::Data { from: Side::Visitor, bytes: b"GET /".to_vec() });
    assert_eq!(action, RelayAction::Write { to: Side::Tunnel, bytes: b"GET /".to_vec() });
    let action = pump.step(RelayEvent::Data { from: Side::Tunnel, bytes: vec![0, 255, 7] });
    assert_eq!(action, RelayAction::Write { to: Side::Visitor, bytes: vec![0, 255, 7] });
    let action = pump.step(RelayEvent::Data { from: Side::Tunnel, bytes: Vec::new() });
    assert_eq!(action, RelayAction::Write { to: Side::Visitor, bytes: Vec::new() });
    assert!(!pump.is_finished());
}

#[test]
fn pump_keeps_order_in_both_directions() {
    let mut pump = RelayPump::new();
    let mut to_tunnel = Vec::new();
    let mut to_visitor = Vec::new();
    let mut sent_by_visitor = Vec::new();
    let mut sent_by_tunnel = Vec::new();
    for i in 0..50u8 {
        let (from, chunk) = if i % 3 == 0 {
            (Side::Tunnel, vec![i, i, i])
        } else {
            (Side::Visitor, vec![i])
        };
        match from {
            Side::Tunnel => sent_by_tunnel.extend_from_slice(&chunk),
            Side::Visitor => sent_by_visitor.extend_from_slice(&chunk),
        }
        match pump.step(RelayEvent::Data { from, bytes: chunk }) {
            RelayAction::Write { to: Side::Tunnel, bytes } => to_tunnel.extend(bytes),
            RelayAction::Write { to: Side::Visitor, bytes } => to_visitor.extend(bytes),
            other => panic!("unexpected action {:?}", other),
        }
    }
    assert_eq!(to_tunnel, sent_by_visitor);
    assert_eq!(to_visitor, sent_by_tunnel);
}

#[test]
fn half_close_is_passed_on() {
    let mut pump = RelayPump::new();
    let action = pump.step(RelayEvent::Eof { from: Side::Visitor });
    assert_eq!(action, RelayAction::Shutdown { to: Side::Tunnel });
    assert!(!pump.is_finished());
    assert!(!pump.is_carrying(Side::Visitor));
    assert!(pump.is_carrying(Side::Tunnel));

    let action = pump.step(RelayEvent::Data { from: Side::Tunnel, bytes: b"tail".to_vec() });
    assert_eq!(action, RelayAction::Write { to: Side::Visitor, bytes: b"tail".to_vec() });
    let action = pump.step(RelayEvent::Data { from: Side::Visitor, bytes: b"late".to_vec() });
    assert_eq!(action, RelayAction::Ignore);
    let action = pump.step(RelayEvent::Eof { from: Side::Visitor });
    assert_eq!(action, RelayAction::Ignore);

    let action = pump.step(RelayEvent::Eof { from: Side::Tunnel });
    assert_eq!(action, RelayAction::Release { outcome: RelayOutcome::Completed });
    assert!(pump.is_finished());
    assert_eq!(pump.outcome, Some(RelayOutcome::Completed));
    assert_eq!(Side::Tunnel.peer(), Side::Visitor);
    assert_eq!(Side::Visitor.peer(), Side::Tunnel);
}

#[test]
fn failure_ends_both_directions() {
    for side in [Side::Tunnel, Side::Visitor] {
        let mut pump = RelayPump::new();
        pump.step(RelayEvent::Data { from: side, bytes: vec![1] });
        let action = pump.step(RelayEvent::Failed { on: side });
        assert_eq!(action, RelayAction::Release { outcome: RelayOutcome::Broken });
        assert!(pump.is_finished());
        assert_eq!(pump.outcome, Some(RelayOutcome::Broken));
        for later in [
            RelayEvent::Data { from: Side::Tunnel, bytes: vec![2] },
            RelayEvent::Data { from: Side::Visitor, bytes: vec![3] },
            RelayEvent::Eof { from: Side::Tunnel },
            RelayEvent::Failed { on: Side::Visitor },
        ] {
            assert_eq!(pump.step(later), RelayAction::Ignore);
        }
        assert_eq!(pump.outcome, Some(RelayOutcome::Broken));
    }
}

#[test]
fn failure_after_half_close_breaks_the_relay() {
    let mut pump = RelayPump::new();
    pump.step(RelayEvent::Eof { from: Side::Tunnel });
    let action = pump.step(RelayEvent::Failed { on: Side::Visitor });
    assert_eq!(action, RelayAction::Release { outcome: RelayOutcome::Broken });
}
