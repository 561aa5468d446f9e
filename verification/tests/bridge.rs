use frgb::bridge::{
    bridge_start, bridge_step, command_event, BridgeAction, BridgeCommand, BridgeEvent, BridgeHandle, BridgeStage,
    BridgeState, QUEUE_CAPACITY,
};
use frgb::wire::PROTOCOL_VERSION;

fn step(s: &mut BridgeState, e: BridgeEvent) -> BridgeAction {
    let (next, action) = bridge_step(*s, &e);
    *s = next;
    action
}

#[test]
fn bridge_connects_lazily_greets_and_reuses_the_connection() {
    let mut s = bridge_start();
    assert!(!s.connected);
    assert!(matches!(step(&mut s, BridgeEvent::Command { call: true }), BridgeAction::Connect));
    assert!(matches!(step(&mut s, BridgeEvent::ConnectOk), BridgeAction::Hello { protocol_version } if protocol_version == PROTOCOL_VERSION));
    assert!(matches!(step(&mut s, BridgeEvent::HandshakeOk), BridgeAction::Request));
    assert!(matches!(step(&mut s, BridgeEvent::ReplyOk), BridgeAction::Deliver));
    assert!(s.connected);
    assert_eq!(s.stage, BridgeStage::Waiting);
    assert!(matches!(step(&mut s, BridgeEvent::Command { call: false }), BridgeAction::Request));
    assert!(matches!(step(&mut s, BridgeEvent::ReplyOk), BridgeAction::Idle), "a send discards the reply");
}

#[test]
fn bridge_failures_answer_calls_and_drop_the_connection() {
    let mut s = bridge_start();
    step(&mut s, BridgeEvent::Command { call: true });
    match step(&mut s, BridgeEvent::ConnectFailed("refused".to_string())) {
        BridgeAction::Fail(m) => assert_eq!(m, "not connected: refused"),
        other => panic!("expected a failure reply, got {:?}", other),
    }
    step(&mut s, BridgeEvent::Command { call: true });
    step(&mut s, BridgeEvent::ConnectOk);
    match step(&mut s, BridgeEvent::HandshakeRejected("too old".to_string())) {
        BridgeAction::Fail(m) => assert_eq!(m, "handshake failed: too old"),
        other => panic!("expected a failure reply, got {:?}", other),
    }
    assert!(!s.connected);
    step(&mut s, BridgeEvent::Command { call: true });
    step(&mut s, BridgeEvent::ConnectOk);
    match step(&mut s, BridgeEvent::HandshakeFailed("eof".to_string())) {
        BridgeAction::Fail(m) => assert_eq!(m, "handshake error: eof"),
        other => panic!("expected a failure reply, got {:?}", other),
    }
    step(&mut s, BridgeEvent::Command { call: false });
    step(&mut s, BridgeEvent::ConnectOk);
    step(&mut s, BridgeEvent::HandshakeOk);
    assert!(s.connected);
    assert!(matches!(step(&mut s, BridgeEvent::ReplyFailed("broken pipe".to_string())), BridgeAction::Idle));
    assert!(!s.connected, "a failed send drops the connection too");
    step(&mut s, BridgeEvent::Command { call: true });
    step(&mut s, BridgeEvent::ConnectOk);
    step(&mut s, BridgeEvent::HandshakeOk);
    match step(&mut s, BridgeEvent::ReplyFailed("broken pipe".to_string())) {
        BridgeAction::Fail(m) => assert_eq!(m, "ipc error: broken pipe"),
        other => panic!("expected a failure reply, got {:?}", other),
    }
}

#[test]
fn bridge_ignores_events_out_of_turn() {
    let mut s = bridge_start();
    assert!(matches!(step(&mut s, BridgeEvent::ReplyOk), BridgeAction::Idle));
    assert_eq!(s, bridge_start());
}

#[test]
fn commands_are_taken_oldest_first_with_tickets_for_calls() {
    let mut h: BridgeHandle<&str> = BridgeHandle::new();
    assert_eq!(h.send("status"), Ok(()));
    assert_eq!(h.call("list"), Ok(0));
    assert_eq!(h.call("groups"), Ok(1));
    assert!(matches!(h.next_command(), Some(BridgeCommand::Send("status"))));
    let c = h.next_command().unwrap();
    assert!(matches!(command_event(&c), BridgeEvent::Command { call: true }));
    assert!(matches!(c, BridgeCommand::Call { request: "list", ticket: 0 }));
    assert!(matches!(h.next_command(), Some(BridgeCommand::Call { request: "groups", ticket: 1 })));
    assert!(h.next_command().is_none());
}

#[test]
fn a_full_queue_hands_the_request_back() {
    let mut h: BridgeHandle<u32> = BridgeHandle::new();
    for i in 0..QUEUE_CAPACITY as u32 {
        assert_eq!(h.send(i), Ok(()));
    }
    assert_eq!(h.send(999), Err(999));
    assert_eq!(h.call(1000), Err(1000));
    assert_eq!(h.next_ticket, 0);
    assert!(matches!(h.next_command(), Some(BridgeCommand::Send(0))));
    assert_eq!(h.call(1000), Ok(0));
}

#[test]
fn a_call_is_answered_exactly_once() {
    let mut s = bridge_start();
    let mut answers = 0;
    for e in [
        BridgeEvent::Command { call: true },
        BridgeEvent::ConnectOk,
        BridgeEvent::HandshakeOk,
        BridgeEvent::ReplyOk,
        BridgeEvent::ReplyOk,
        BridgeEvent::HandshakeOk,
    ] {
        if matches!(step(&mut s, e), BridgeAction::Deliver | BridgeAction::Fail(_)) {
            answers += 1;
        }
    }
    assert_eq!(answers, 1);
}
