//! Frames: a command, its headers and a body; and what travels on the wire,
//! frames and heart-beats.
use vstd::prelude::*;
use crate::header::{Header, HeaderList, HeaderView};
use crate::subscription::{ack_mode_text, AckMode};
use crate::text::{decimal, decimal_string};

verus! {

/// The command a frame carries.
#[derive(Clone, Copy, Debug, PartialEq, Eq, Structural)]
pub enum Command {
    Send,
    Subscribe,
    Unsubscribe,
    Begin,
    Commit,
    Abort,
    Ack,
    Nack,
    Disconnect,
    Connect,
    Stomp,
    Connected,
    Message,
    Receipt,
    Error,
}

/// The receipt that a DISCONNECT frame asks for; its answer ends the session.
pub open spec fn disconnect_receipt() -> Seq<char> {
    "msg/disconnect"@
}

/// A frame as the protocol sees it.
#[verifier::ext_equal]
pub struct FrameView {
    pub command: Command,
    pub headers: Seq<HeaderView>,
    pub body: Seq<u8>,
}

/// A complete frame.
#[derive(Debug)]
pub struct Frame {
    pub command: Command,
    pub headers: HeaderList,
    pub body: Vec<u8>,
}

impl View for Frame {
    type V = FrameView;

    open spec fn view(&self) -> FrameView {
        FrameView { command: self.command, headers: self.headers@, body: self.body@ }
    }
}

impl Clone for Frame {
    fn clone(&self) -> (r: Self)
        ensures
            r@ == self@,
    {
        Frame { command: self.command, headers: self.headers.clone(), body: self.body.clone() }
    }
}

/// What a connection carries: a frame, or a heart-beat (a lone end of line).
#[derive(Debug)]
pub enum Transmission {
    HeartBeat,
    CompleteFrame(Frame),
}

/// What travels on a connection, as the protocol sees it.
pub enum TransmissionView {
    HeartBeat,
    CompleteFrame(FrameView),
}

impl View for Transmission {
    type V = TransmissionView;

    open spec fn view(&self) -> TransmissionView {
        match self {
            Transmission::HeartBeat => TransmissionView::HeartBeat,
            Transmission::CompleteFrame(f) => TransmissionView::CompleteFrame(f@),
        }
    }
}

/// A frame as the protocol sees it, with no body.
pub open spec fn bodiless(command: Command, headers: Seq<HeaderView>) -> FrameView {
    FrameView { command, headers, body: Seq::empty() }
}

fn one_header(key: &str, value: &str) -> (l: HeaderList)
    ensures
        l@ == seq![(key@, value@)],
{
    let mut l = HeaderList::new();
    l.push(Header::new(key, value));
    assert(l@ =~= seq![(key@, value@)]);
    l
}

impl Frame {
    /// A SEND frame as the protocol sees it.
    pub open spec fn send_view(destination: Seq<char>, body: Seq<u8>) -> FrameView {
        FrameView {
            command: Command::Send,
            headers: seq![("destination"@, destination), ("content-length"@, decimal(body.len()))],
            body,
        }
    }

    /// A SEND frame of `body` to `destination`.
    pub fn send(destination: &str, body: &[u8]) -> (f: Frame)
        ensures
            f@ == Frame::send_view(destination@, body@),
    {
        let mut headers = one_header("destination", destination);
        let length = decimal_string(body.len() as u64);
        headers.push(Header::new("content-length", length.as_str()));
        let f = Frame { command: Command::Send, headers, body: vstd::slice::slice_to_vec(body) };
        assert(f.headers@ =~= seq![("destination"@, destination@), ("content-length"@, decimal(body@.len()))]);
        f
    }

    /// A SUBSCRIBE frame for `destination` under the identifier `id`.
    pub fn subscribe(id: &str, destination: &str, ack_mode: AckMode) -> (f: Frame)
        ensures
            f@ == bodiless(Command::Subscribe,
                seq![("destination"@, destination@), ("id"@, id@), ("ack"@, ack_mode_text(ack_mode))]),
    {
        let mut headers = one_header("destination", destination);
        headers.push(Header::new("id", id));
        headers.push(Header::new("ack", ack_mode.as_text()));
        let f = Frame { command: Command::Subscribe, headers, body: Vec::new() };
        assert(f.headers@ =~= seq![("destination"@, destination@), ("id"@, id@), ("ack"@, ack_mode_text(ack_mode))]);
        assert(f.body@ =~= Seq::<u8>::empty());
        assert(f@ =~= bodiless(Command::Subscribe,
            seq![("destination"@, destination@), ("id"@, id@), ("ack"@, ack_mode_text(ack_mode))]));
        f
    }

    /// An UNSUBSCRIBE frame for the subscription `id`.
    pub fn unsubscribe(id: &str) -> (f: Frame)
        ensures
            f@ == bodiless(Command::Unsubscribe, seq![("id"@, id@)]),
    {
        let f = Frame { command: Command::Unsubscribe, headers: one_header("id", id), body: Vec::new() };
        assert(f@ =~= bodiless(Command::Unsubscribe, seq![("id"@, id@)]));
        f
    }

    /// A BEGIN frame for the transaction `id`.
    pub fn begin(id: &str) -> (f: Frame)
        ensures
            f@ == bodiless(Command::Begin, seq![("transaction"@, id@)]),
    {
        let f = Frame { command: Command::Begin, headers: one_header("transaction", id), body: Vec::new() };
        assert(f@ =~= bodiless(Command::Begin, seq![("transaction"@, id@)]));
        f
    }

    /// A COMMIT frame for the transaction `id`.
    pub fn commit(id: &str) -> (f: Frame)
        ensures
            f@ == bodiless(Command::Commit, seq![("transaction"@, id@)]),
    {
        let f = Frame { command: Command::Commit, headers: one_header("transaction", id), body: Vec::new() };
        assert(f@ =~= bodiless(Command::Commit, seq![("transaction"@, id@)]));
        f
    }

    /// An ABORT frame for the transaction `id`.
    pub fn abort(id: &str) -> (f: Frame)
        ensures
            f@ == bodiless(Command::Abort, seq![("transaction"@, id@)]),
    {
        let f = Frame { command: Command::Abort, headers: one_header("transaction", id), body: Vec::new() };
        assert(f@ =~= bodiless(Command::Abort, seq![("transaction"@, id@)]));
        f
    }

    /// An ACK frame for the message whose `ack` header was `id`.
    pub fn ack(id: &str) -> (f: Frame)
        ensures
            f@ == bodiless(Command::Ack, seq![("id"@, id@)]),
    {
        let f = Frame { command: Command::Ack, headers: one_header("id", id), body: Vec::new() };
        assert(f@ =~= bodiless(Command::Ack, seq![("id"@, id@)]));
        f
    }

    /// A NACK frame for the message whose `ack` header was `id`.
    pub fn nack(id: &str) -> (f: Frame)
        ensures
            f@ == bodiless(Command::Nack, seq![("id"@, id@)]),
    {
        let f = Frame { command: Command::Nack, headers: one_header("id", id), body: Vec::new() };
        assert(f@ =~= bodiless(Command::Nack, seq![("id"@, id@)]));
        f
    }

    /// A DISCONNECT frame that asks for the receipt that ends the session.
    pub fn disconnect() -> (f: Frame)
        ensures
            f@ == bodiless(Command::Disconnect, seq![("receipt"@, disconnect_receipt())]),
    {
        let f = Frame { command: Command::Disconnect, headers: one_header("receipt", "msg/disconnect"), body: Vec::new() };
        assert(f@ =~= bodiless(Command::Disconnect, seq![("receipt"@, disconnect_receipt())]));
        f
    }
}

} // verus!
