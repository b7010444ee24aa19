use stomp::codec::{decode, encode, encode_frame, Decoded};
use stomp::frame::{Command, Frame, Transmission};
use stomp::header::{Header, HeaderList};
use stomp::subscription::{AckMode, Subscription};

fn pairs(f: &Frame) -> Vec<(String, String)> {
    f.headers.headers.iter().map(|h| (h.key.clone(), h.value.clone())).collect()
}

fn p(k: &str, v: &str) -> (String, String) {
    (k.to_string(), v.to_string())
}

#[test]
fn frame_constructors() {
    let f = Frame::send("/queue/a", b"hello");
    assert_eq!(f.command, Command::Send);
    assert_eq!(pairs(&f), vec![p("destination", "/queue/a"), p("content-length", "5")]);
    assert_eq!(f.body, b"hello".to_vec());

    let f = Frame::subscribe("stomp-rs/0", "/topic/t", AckMode::ClientIndividual);
    assert_eq!(f.command, Command::Subscribe);
    assert_eq!(pairs(&f), vec![p("destination", "/topic/t"), p("id", "stomp-rs/0"), p("ack", "client-individual")]);
    assert!(f.body.is_empty());

    assert_eq!(pairs(&Frame::unsubscribe("s")), vec![p("id", "s")]);
    assert_eq!(pairs(&Frame::ack("m-1")), vec![p("id", "m-1")]);
    assert_eq!(Frame::nack("m-1").command, Command::Nack);
    assert_eq!(pairs(&Frame::begin("tx/0")), vec![p("transaction", "tx/0")]);
    assert_eq!(Frame::commit("tx/0").command, Command::Commit);
    assert_eq!(Frame::abort("tx/0").command, Command::Abort);
    let d = Frame::disconnect();
    assert_eq!(d.command, Command::Disconnect);
    assert_eq!(pairs(&d), vec![p("receipt", "msg/disconnect")]);
}

#[test]
fn ack_mode_text() {
    assert_eq!(AckMode::Auto.as_text(), "auto");
    assert_eq!(AckMode::Client.as_text(), "client");
    assert_eq!(AckMode::ClientIndividual.as_text(), "client-individual");
}

#[test]
fn subscription_identifiers() {
    let s = Subscription::new(0, "/topic/t", AckMode::Client, HeaderList::new());
    assert_eq!(s.id, "stomp-rs/0");
    assert_eq!(s.destination, "/topic/t");
    let s = Subscription::new(12, "/q", AckMode::Auto, HeaderList::new());
    assert_eq!(s.id, "stomp-rs/12");
}

#[test]
fn encode_frame_bytes() {
    let mut out = Vec::new();
    encode_frame(&Frame::send("/q", b"hi"), &mut out);
    assert_eq!(out, b"SEND\ndestination:/q\ncontent-length:2\n\nhi\0".to_vec());
    let mut out = vec![1u8];
    encode(&Transmission::HeartBeat, &mut out);
    assert_eq!(out, vec![1u8, 10]);
}

#[test]
fn decode_heart_beat_and_incomplete() {
    assert!(matches!(decode(b""), Decoded::Incomplete));
    assert!(matches!(decode(b"\nMESSAGE"), Decoded::Complete(Transmission::HeartBeat, 1)));
    assert!(matches!(decode(b"MESSAGE\nsubscription:a\n\nbody"), Decoded::Incomplete));
}

#[test]
fn decode_message_frame() {
    let bytes = b"MESSAGE\nsubscription:stomp-rs/0\nmessage-id:m:1\nack:m-1\n\nAnimal\0\nrest";
    match decode(bytes) {
        Decoded::Complete(Transmission::CompleteFrame(f), n) => {
            assert_eq!(n, bytes.len() - 5);
            assert_eq!(f.command, Command::Message);
            assert_eq!(pairs(&f), vec![p("subscription", "stomp-rs/0"), p("message-id", "m:1"), p("ack", "m-1")]);
            assert_eq!(f.body, b"Animal".to_vec());
        }
        _ => panic!("expected a frame"),
    }
}

#[test]
fn decode_rejects_malformed_frames() {
    assert!(matches!(decode(b"BOGUS\n\n\0"), Decoded::Invalid));
    assert!(matches!(decode(b"MESSAGE\0"), Decoded::Invalid));
    assert!(matches!(decode(b"MESSAGE\nno-colon\n\n\0"), Decoded::Invalid));
    assert!(matches!(decode(b"MESSAGE\nkey:value\n\0"), Decoded::Invalid));
    assert!(matches!(decode(b"MESSAGE\nkey:\xff\n\n\0"), Decoded::Invalid));
}

#[test]
fn every_command_round_trips() {
    let commands = [
        Command::Send, Command::Subscribe, Command::Unsubscribe, Command::Begin, Command::Commit,
        Command::Abort, Command::Ack, Command::Nack, Command::Disconnect, Command::Connect,
        Command::Stomp, Command::Connected, Command::Message, Command::Receipt, Command::Error,
    ];
    for c in commands {
        let mut headers = HeaderList::new();
        headers.push(Header::new("k", "v:w"));
        headers.push(Header::new("", "empty key"));
        let f = Frame { command: c, headers, body: b"xyz".to_vec() };
        let mut out = Vec::new();
        encode_frame(&f, &mut out);
        let written = out.len();
        out.extend_from_slice(b"SEND\n");
        match decode(&out) {
            Decoded::Complete(Transmission::CompleteFrame(g), n) => {
                assert_eq!(n, written);
                assert_eq!(g.command, c);
                assert_eq!(pairs(&g), pairs(&f));
                assert_eq!(g.body, f.body);
            }
            _ => panic!("expected a frame"),
        }
    }
}

#[test]
fn non_ascii_headers_round_trip() {
    let mut headers = HeaderList::new();
    headers.push(Header::new("grüße", "日本語:テキスト"));
    headers.push(Header::new("emoji", "🦀 crab"));
    let f = Frame { command: Command::Message, headers, body: "ünïcödé".as_bytes().to_vec() };
    let mut out = Vec::new();
    encode_frame(&f, &mut out);
    let written = out.len();
    out.push(b'\n');
    match decode(&out) {
        Decoded::Complete(Transmission::CompleteFrame(g), n) => {
            assert_eq!(n, written);
            assert_eq!(pairs(&g), pairs(&f));
            assert_eq!(g.body, f.body);
        }
        _ => panic!("expected a frame"),
    }
}
