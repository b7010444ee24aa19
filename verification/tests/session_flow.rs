use stomp::connection::{Credentials, HeartBeat};
use stomp::frame::{Command, Frame, Transmission};
use stomp::header::{ContentType, Header, HeaderList, SuppressedHeader};
use stomp::session::{
    Action, DisconnectionReason, GenerateReceipt, Session, SessionEvent, StreamOutcome, StreamState, TransportError,
    TransportErrorKind,
};
use stomp::session_builder::SessionBuilder;
use stomp::subscription::{AckMode, AckOrNack};

fn pairs(f: &Frame) -> Vec<(String, String)> {
    f.headers.headers.iter().map(|h| (h.key.clone(), h.value.clone())).collect()
}

fn p(k: &str, v: &str) -> (String, String) {
    (k.to_string(), v.to_string())
}

fn frame(command: Command, headers: &[(&str, &str)], body: &[u8]) -> Frame {
    let mut l = HeaderList::new();
    for (k, v) in headers {
        l.push(Header::new(k, v));
    }
    Frame { command, headers: l, body: body.to_vec() }
}

fn sent_frames(actions: Vec<Action>) -> Vec<Frame> {
    actions
        .into_iter()
        .filter_map(|a| match a {
            Action::Transmit(Transmission::CompleteFrame(f)) => Some(f),
            _ => None,
        })
        .collect()
}

fn connected_session() -> Session {
    let builder = SessionBuilder::new("localhost", 61613);
    let mut session = Session::new(builder.config);
    session.on_stream_ready();
    session.take_actions();
    session
}

#[test]
fn new_session_is_connecting_and_quiet() {
    let mut session = Session::new(SessionBuilder::new("h", 1).config);
    assert_eq!(session.stream_state(), StreamState::Connecting);
    assert!(session.next_event().is_none());
    assert!(session.take_actions().is_empty());
}

#[test]
fn frames_are_dropped_until_connected() {
    let mut session = Session::new(SessionBuilder::new("h", 1).config);
    session.send_frame(Frame::unsubscribe("x"));
    session.disconnect();
    assert!(session.take_actions().is_empty());
}

#[test]
fn stream_ready_sends_connect_with_login_and_heart_beat() {
    let builder = SessionBuilder::new("broker", 61613)
        .with(HeartBeat(5000, 2000))
        .with(Credentials("admin", "password"))
        .with(Header::new("custom-client-id", "hmspna4"))
        .with(SuppressedHeader("content-length"));
    let mut session = Session::new(builder.config);
    session.on_stream_ready();
    assert_eq!(session.stream_state(), StreamState::Connected);
    let frames = sent_frames(session.take_actions());
    assert_eq!(frames.len(), 1);
    assert_eq!(frames[0].command, Command::Connect);
    assert_eq!(
        pairs(&frames[0]),
        vec![
            p("host", "broker"),
            p("accept-version", "1.2"),
            p("custom-client-id", "hmspna4"),
            p("login", "admin"),
            p("passcode", "password"),
            p("heart-beat", "5000,2000"),
        ]
    );
    assert!(frames[0].body.is_empty());
}

#[test]
fn connected_frame_negotiates_heart_beats() {
    let builder = SessionBuilder::new("broker", 61613).with(HeartBeat(5000, 2000));
    let mut session = Session::new(builder.config);
    session.on_stream_ready();
    session.take_actions();
    let connected = frame(Command::Connected, &[("version", "1.2"), ("heart-beat", "1000,3000")], b"");
    let agreed = session.on_transmission(Transmission::CompleteFrame(connected));
    assert_eq!(agreed, Some((5000, 2000)));
    session.on_connected_frame_received(5000, 4000);
    assert_eq!(session.state.tx_heartbeat_ms, Some(5000));
    assert_eq!(session.state.rx_heartbeat_ms, Some(4000));
    assert_eq!(session.state.tx_heartbeat_timeout, Some(5000));
    assert_eq!(session.state.rx_heartbeat_timeout, Some(4000));
    let actions = session.take_actions();
    assert_eq!(actions.len(), 2);
    assert!(matches!(actions[0], Action::ArmTxTimer(5000)));
    assert!(matches!(actions[1], Action::ArmRxTimer(4000)));
    assert!(matches!(session.next_event(), Some(SessionEvent::Connected)));
    assert!(session.next_event().is_none());
}

#[test]
fn connected_frame_without_heart_beat_arms_nothing() {
    let mut session = connected_session();
    let agreed = session.on_transmission(Transmission::CompleteFrame(frame(Command::Connected, &[], b"")));
    assert_eq!(agreed, Some((0, 0)));
    session.on_connected_frame_received(0, 0);
    assert!(session.take_actions().is_empty());
    assert_eq!(session.state.tx_heartbeat_timeout, None);
    assert_eq!(session.state.rx_heartbeat_timeout, None);
    assert!(matches!(session.next_event(), Some(SessionEvent::Connected)));
}

#[test]
fn received_data_rearms_the_receive_timer() {
    let mut session = connected_session();
    session.on_connected_frame_received(0, 300);
    session.take_actions();
    session.next_event();
    assert_eq!(session.on_transmission(Transmission::HeartBeat), None);
    let actions = session.take_actions();
    assert_eq!(actions.len(), 1);
    assert!(matches!(actions[0], Action::ArmRxTimer(300)));
    assert!(session.next_event().is_none());
}

#[test]
fn heart_beat_timers() {
    let mut session = connected_session();
    session.on_connected_frame_received(100, 200);
    session.take_actions();
    session.on_tx_heartbeat_timeout();
    let actions = session.take_actions();
    assert_eq!(actions.len(), 2);
    assert!(matches!(actions[0], Action::Transmit(Transmission::HeartBeat)));
    assert!(matches!(actions[1], Action::ArmTxTimer(100)));
    session.on_rx_heartbeat_timeout();
    assert_eq!(session.stream_state(), StreamState::Failed);
    assert_eq!(session.state.tx_heartbeat_timeout, None);
    assert_eq!(session.state.rx_heartbeat_timeout, None);
    assert!(matches!(session.take_actions()[0], Action::DisarmTimers));
    assert!(matches!(session.next_event(), Some(SessionEvent::Connected)));
    assert!(matches!(session.next_event(), Some(SessionEvent::Disconnected(DisconnectionReason::HeartbeatTimeout))));
}

#[test]
fn subscription_routes_messages() {
    let mut session = connected_session();
    let id = session
        .subscription("/topic/t")
        .with(AckMode::Client)
        .with(Header::new("custom-subscription-header", "lozenge"))
        .start();
    assert_eq!(id, "stomp-rs/0");
    let frames = sent_frames(session.take_actions());
    assert_eq!(frames.len(), 1);
    assert_eq!(frames[0].command, Command::Subscribe);
    assert_eq!(
        pairs(&frames[0]),
        vec![
            p("destination", "/topic/t"),
            p("id", "stomp-rs/0"),
            p("ack", "client"),
            p("custom-subscription-header", "lozenge"),
        ]
    );
    let second = session.subscription("/queue/q").start();
    assert_eq!(second, "stomp-rs/1");

    let msg = frame(Command::Message, &[("subscription", "stomp-rs/0"), ("ack", "m-1")], b"Animal");
    session.on_transmission(Transmission::CompleteFrame(msg));
    match session.next_event() {
        Some(SessionEvent::Message { destination, ack_mode, frame }) => {
            assert_eq!(destination, "/topic/t");
            assert_eq!(ack_mode, AckMode::Client);
            assert_eq!(frame.body, b"Animal".to_vec());
        }
        _ => panic!("expected a message"),
    }

    let stray = frame(Command::Message, &[("subscription", "other")], b"");
    session.on_transmission(Transmission::CompleteFrame(stray));
    assert!(matches!(session.next_event(), Some(SessionEvent::SubscriptionlessFrame(_))));

    let unmarked = frame(Command::Message, &[], b"");
    session.on_transmission(Transmission::CompleteFrame(unmarked));
    assert!(matches!(session.next_event(), Some(SessionEvent::SubscriptionlessFrame(_))));
}

#[test]
fn unsubscribed_messages_are_unrouted() {
    let mut session = connected_session();
    let id = session.subscription("/topic/t").start();
    session.take_actions();
    session.unsubscribe(&id);
    let frames = sent_frames(session.take_actions());
    assert_eq!(frames.len(), 1);
    assert_eq!(frames[0].command, Command::Unsubscribe);
    assert_eq!(pairs(&frames[0]), vec![p("id", "stomp-rs/0")]);
    assert!(!session.state.subscriptions.contains_key(&id));
    let msg = frame(Command::Message, &[("subscription", "stomp-rs/0")], b"");
    session.on_transmission(Transmission::CompleteFrame(msg));
    assert!(matches!(session.next_event(), Some(SessionEvent::SubscriptionlessFrame(_))));
}

#[test]
fn message_receipts_come_back_with_their_frame() {
    let mut session = connected_session();
    session.message("/queue/a", b"Vegetable").with(GenerateReceipt).send();
    let frames = sent_frames(session.take_actions());
    assert_eq!(frames.len(), 1);
    assert_eq!(
        pairs(&frames[0]),
        vec![p("destination", "/queue/a"), p("content-length", "9"), p("receipt", "message/0")]
    );
    assert!(session.state.outstanding_receipts.contains_key("message/0"));

    let receipt = frame(Command::Receipt, &[("receipt-id", "message/0")], b"");
    session.on_transmission(Transmission::CompleteFrame(receipt));
    match session.next_event() {
        Some(SessionEvent::Receipt { id, original, receipt }) => {
            assert_eq!(id, "message/0");
            assert_eq!(original.body, b"Vegetable".to_vec());
            assert_eq!(receipt.command, Command::Receipt);
        }
        _ => panic!("expected a receipt"),
    }
    assert!(!session.state.outstanding_receipts.contains_key("message/0"));

    let again = frame(Command::Receipt, &[("receipt-id", "message/0")], b"");
    session.on_transmission(Transmission::CompleteFrame(again));
    assert!(session.next_event().is_none());
}

#[test]
fn subscription_receipt_is_awaited() {
    let mut session = connected_session();
    let id = session.subscription("/topic/t").with(GenerateReceipt).start();
    assert_eq!(id, "stomp-rs/0");
    let frames = sent_frames(session.take_actions());
    assert_eq!(pairs(&frames[0]).last().unwrap(), &p("receipt", "message/0"));
    let receipt = frame(Command::Receipt, &[("receipt-id", "message/0")], b"");
    session.on_transmission(Transmission::CompleteFrame(receipt));
    match session.next_event() {
        Some(SessionEvent::Receipt { original, .. }) => assert_eq!(original.command, Command::Subscribe),
        _ => panic!("expected a receipt"),
    }
}

#[test]
fn message_options() {
    let mut session = connected_session();
    session
        .message("/queue/a", b"{}")
        .with(ContentType("application/json"))
        .with(SuppressedHeader("content-length"))
        .with(Header::new("priority", "9"))
        .send();
    let frames = sent_frames(session.take_actions());
    assert_eq!(
        pairs(&frames[0]),
        vec![p("destination", "/queue/a"), p("content-type", "application/json"), p("priority", "9")]
    );
    assert!(session.state.outstanding_receipts.len() == 0);
}

#[test]
fn disconnect_handshake() {
    let mut session = connected_session();
    session.disconnect();
    let frames = sent_frames(session.take_actions());
    assert_eq!(frames[0].command, Command::Disconnect);
    assert_eq!(pairs(&frames[0]), vec![p("receipt", "msg/disconnect")]);
    let receipt = frame(Command::Receipt, &[("receipt-id", "msg/disconnect")], b"");
    session.on_transmission(Transmission::CompleteFrame(receipt));
    assert_eq!(session.stream_state(), StreamState::Failed);
    assert!(matches!(session.next_event(), Some(SessionEvent::Disconnected(DisconnectionReason::Requested))));
    assert!(session.next_event().is_none());
    session.send_frame(Frame::unsubscribe("late"));
    let actions = session.take_actions();
    assert_eq!(actions.len(), 1);
    assert!(matches!(actions[0], Action::DisarmTimers));
}

#[test]
fn acknowledgements() {
    let mut session = connected_session();
    let msg = frame(Command::Message, &[("subscription", "s"), ("ack", "m-7")], b"");
    session.acknowledge_frame(&msg, AckOrNack::Ack);
    session.acknowledge_frame(&msg, AckOrNack::Nack);
    let without = frame(Command::Message, &[("subscription", "s")], b"");
    session.acknowledge_frame(&without, AckOrNack::Ack);
    let frames = sent_frames(session.take_actions());
    assert_eq!(frames.len(), 2);
    assert_eq!(frames[0].command, Command::Ack);
    assert_eq!(pairs(&frames[0]), vec![p("id", "m-7")]);
    assert_eq!(frames[1].command, Command::Nack);
}

#[test]
fn error_and_unknown_frames_are_reported() {
    let mut session = connected_session();
    session.on_transmission(Transmission::CompleteFrame(frame(Command::Error, &[("message", "bad")], b"oops")));
    session.on_transmission(Transmission::CompleteFrame(frame(Command::Send, &[], b"")));
    match session.next_event() {
        Some(SessionEvent::ErrorFrame(f)) => assert_eq!(f.body, b"oops".to_vec()),
        _ => panic!("expected an error frame"),
    }
    assert!(matches!(session.next_event(), Some(SessionEvent::UnknownFrame(_))));
}

#[test]
fn transactions() {
    let mut session = connected_session();
    let t = session.begin_transaction();
    assert_eq!(t.id, "tx/0");
    t.commit();
    let t = session.begin_transaction();
    assert_eq!(t.id, "tx/1");
    t.abort();
    let frames = sent_frames(session.take_actions());
    let commands: Vec<Command> = frames.iter().map(|f| f.command).collect();
    assert_eq!(commands, vec![Command::Begin, Command::Commit, Command::Begin, Command::Abort]);
    assert_eq!(pairs(&frames[3]), vec![p("transaction", "tx/1")]);
}

#[test]
fn failures_end_the_session() {
    let mut session = connected_session();
    session.on_disconnect(DisconnectionReason::SendFailed(err(TransportErrorKind::BrokenPipe, "broken pipe")));
    assert_eq!(session.stream_state(), StreamState::Failed);
    match session.next_event() {
        Some(SessionEvent::Disconnected(DisconnectionReason::SendFailed(e))) => {
            assert_eq!(e.kind, TransportErrorKind::BrokenPipe);
            assert_eq!(e.message, "broken pipe");
        }
        _ => panic!("expected a disconnection"),
    }
    session.reconnect();
    assert_eq!(session.stream_state(), StreamState::Connecting);
}

#[test]
fn identifiers_count_up() {
    let mut session = connected_session();
    assert_eq!(session.generate_receipt_id(), 0);
    assert_eq!(session.generate_receipt_id(), 1);
    assert_eq!(session.generate_subscription_id(), 0);
    assert_eq!(session.generate_transaction_id(), 0);
    assert_eq!(session.generate_transaction_id(), 1);
}

#[test]
fn session_builder_defaults_and_options() {
    let b = SessionBuilder::new("localhost", 61613);
    assert_eq!(b.config.host, "localhost");
    assert_eq!(b.config.port, 61613);
    assert!(b.config.credentials.is_none());
    assert_eq!(b.config.heartbeat, HeartBeat(0, 0));
    let keys: Vec<String> = b.config.headers.headers.iter().map(|h| h.key.clone()).collect();
    assert_eq!(keys, vec!["host", "accept-version", "content-length"]);
    let b = b.with(SuppressedHeader("accept-version")).with(HeartBeat(1, 2));
    let keys: Vec<String> = b.config.headers.headers.iter().map(|h| h.key.clone()).collect();
    assert_eq!(keys, vec!["host", "content-length"]);
    assert_eq!(b.config.heartbeat, HeartBeat(1, 2));
    let c = b.config.clone();
    assert_eq!(c.host, "localhost");
}

fn err(kind: TransportErrorKind, message: &str) -> TransportError {
    TransportError { kind, message: message.to_string() }
}

#[test]
fn every_stream_failure_is_reported_with_its_reason() {
    let outcomes = vec![
        StreamOutcome::RecvFailed(err(TransportErrorKind::ConnectionReset, "reset")),
        StreamOutcome::ConnectFailed(err(TransportErrorKind::ConnectionRefused, "refused")),
        StreamOutcome::SendFailed(err(TransportErrorKind::BrokenPipe, "pipe")),
        StreamOutcome::Closed,
    ];
    for outcome in outcomes {
        let mut session = connected_session();
        session.on_stream_outcome(outcome);
        assert_eq!(session.stream_state(), StreamState::Failed);
        match session.next_event() {
            Some(SessionEvent::Disconnected(DisconnectionReason::RecvFailed(e))) => {
                assert_eq!(e.kind, TransportErrorKind::ConnectionReset);
                assert_eq!(e.message, "reset");
            }
            Some(SessionEvent::Disconnected(DisconnectionReason::ConnectFailed(e))) => {
                assert_eq!(e.kind, TransportErrorKind::ConnectionRefused);
            }
            Some(SessionEvent::Disconnected(DisconnectionReason::SendFailed(e))) => {
                assert_eq!(e.kind, TransportErrorKind::BrokenPipe);
            }
            Some(SessionEvent::Disconnected(DisconnectionReason::ClosedByOtherSide)) => {}
            _ => panic!("expected a disconnection"),
        }
        let actions = session.take_actions();
        assert_eq!(actions.len(), 1);
        assert!(matches!(actions[0], Action::DisarmTimers));
    }
}

#[test]
fn established_stream_sends_connect() {
    let mut session = Session::new(SessionBuilder::new("h", 1).config);
    session.on_stream_outcome(StreamOutcome::Established);
    assert_eq!(session.stream_state(), StreamState::Connected);
    let frames = sent_frames(session.take_actions());
    assert_eq!(frames.len(), 1);
    assert_eq!(frames[0].command, Command::Connect);
}

#[test]
fn counters_are_visible() {
    let mut session = connected_session();
    assert_eq!(session.state.next_receipt_id(), 0);
    session.message("/q", b"").with(GenerateReceipt).send();
    assert_eq!(session.state.next_receipt_id(), 1);
    session.subscription("/t").start();
    assert_eq!(session.state.next_subscription_id(), 1);
    session.begin_transaction().commit();
    assert_eq!(session.state.next_transaction_id(), 1);
}

#[test]
fn receipts_taken_one_after_another_differ() {
    let mut session = connected_session();
    session.message("/q", b"a").with(GenerateReceipt).send();
    session.subscription("/t").with(GenerateReceipt).start();
    session.message("/q", b"b").with(GenerateReceipt).send();
    let frames = sent_frames(session.take_actions());
    let receipts: Vec<String> = frames
        .iter()
        .map(|f| f.headers.get_value("receipt").unwrap())
        .collect();
    assert_eq!(receipts, vec!["message/0", "message/1", "message/2"]);
    assert_eq!(session.state.outstanding_receipts.len(), 3);
}

#[test]
fn reconnecting_session_sends_connect_again() {
    let mut session = connected_session();
    session.on_stream_outcome(StreamOutcome::Closed);
    session.reconnect();
    session.take_actions();
    session.on_stream_ready();
    let frames = sent_frames(session.take_actions());
    assert_eq!(frames.len(), 1);
    assert_eq!(frames[0].command, Command::Connect);
    let keys: Vec<String> = frames[0].headers.headers.iter().map(|h| h.key.clone()).collect();
    assert_eq!(keys, vec!["host", "accept-version", "content-length", "heart-beat", "heart-beat"]);
    assert_eq!(session.config().headers.len(), 5);
}
