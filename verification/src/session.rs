//! The session: what a client knows of its connection, and how it answers
//! what the connection brings. The transport itself is driven from outside:
//! it reports what happened (the stream is ready, a transmission arrived, a
//! timer fired, the stream failed) and carries out the actions the session
//! asks for (transmit, arm or disarm the heart-beat timers).
use vstd::prelude::*;
use std::collections::VecDeque;
use crate::connection::{select_heartbeat, selected, HeartBeat};
use crate::frame::{bodiless, disconnect_receipt, Command, Frame, FrameView, Transmission, TransmissionView};
use crate::header::{lookup, parse_heart_beat, Header, HeaderView};
use crate::keyed::KeyedTable;
use crate::message_builder::MessageBuilder;
use crate::session_builder::{SessionConfig, SessionConfigView};
use crate::subscription::{AckMode, AckOrNack, Subscription, SubscriptionView};
use crate::subscription_builder::SubscriptionBuilder;
use crate::text::{decimal, push_decimal};
use crate::transaction::Transaction;

verus! {

/// A frame that asked for a receipt, kept until the receipt arrives.
pub struct OutstandingReceipt {
    pub original_frame: Frame,
}

impl View for OutstandingReceipt {
    type V = FrameView;

    open spec fn view(&self) -> FrameView {
        self.original_frame@
    }
}

impl OutstandingReceipt {
    pub fn new(original_frame: Frame) -> (r: Self)
        ensures
            r.original_frame == original_frame,
    {
        OutstandingReceipt { original_frame }
    }
}

/// The identifier of a session's `n`th receipt.
pub open spec fn receipt_id_text(n: u32) -> Seq<char> {
    "message/"@ + decimal(n as nat)
}

/// The option that asks the server for a receipt of a frame.
pub struct GenerateReceipt;

/// The receipt a builder's frame asks for.
pub struct ReceiptRequest {
    pub id: String,
}

impl ReceiptRequest {
    pub fn new(id: String) -> (r: Self)
        ensures
            r.id == id,
    {
        ReceiptRequest { id }
    }
}

/// The kind of a transport failure, as the operating system reports it.
#[derive(Clone, Copy, Debug, PartialEq, Eq, Structural)]
pub enum TransportErrorKind {
    NotFound,
    PermissionDenied,
    ConnectionRefused,
    ConnectionReset,
    ConnectionAborted,
    NotConnected,
    AddrInUse,
    AddrNotAvailable,
    BrokenPipe,
    AlreadyExists,
    WouldBlock,
    InvalidInput,
    InvalidData,
    TimedOut,
    WriteZero,
    Interrupted,
    UnexpectedEof,
    Other,
}

/// A failure of the transport: its kind and its description.
#[derive(Debug)]
pub struct TransportError {
    pub kind: TransportErrorKind,
    pub message: String,
}

pub struct TransportErrorView {
    pub kind: TransportErrorKind,
    pub message: Seq<char>,
}

impl View for TransportError {
    type V = TransportErrorView;

    open spec fn view(&self) -> TransportErrorView {
        TransportErrorView { kind: self.kind, message: self.message@ }
    }
}

/// Why a session ended. The failures carry what the transport reported.
#[derive(Debug)]
pub enum DisconnectionReason {
    RecvFailed(TransportError),
    ConnectFailed(TransportError),
    SendFailed(TransportError),
    ClosedByOtherSide,
    HeartbeatTimeout,
    Requested,
}

pub enum DisconnectionReasonView {
    RecvFailed(TransportErrorView),
    ConnectFailed(TransportErrorView),
    SendFailed(TransportErrorView),
    ClosedByOtherSide,
    HeartbeatTimeout,
    Requested,
}

impl View for DisconnectionReason {
    type V = DisconnectionReasonView;

    open spec fn view(&self) -> DisconnectionReasonView {
        match self {
            DisconnectionReason::RecvFailed(e) => DisconnectionReasonView::RecvFailed(e@),
            DisconnectionReason::ConnectFailed(e) => DisconnectionReasonView::ConnectFailed(e@),
            DisconnectionReason::SendFailed(e) => DisconnectionReasonView::SendFailed(e@),
            DisconnectionReason::ClosedByOtherSide => DisconnectionReasonView::ClosedByOtherSide,
            DisconnectionReason::HeartbeatTimeout => DisconnectionReasonView::HeartbeatTimeout,
            DisconnectionReason::Requested => DisconnectionReasonView::Requested,
        }
    }
}

/// What became of the stream a session runs on, as its transport saw it.
#[derive(Debug)]
pub enum StreamOutcome {
    /// The connection was made.
    Established,
    /// The connection could not be made.
    ConnectFailed(TransportError),
    /// The other side closed the stream.
    Closed,
    /// Reading from the stream failed.
    RecvFailed(TransportError),
    /// Writing to the stream failed.
    SendFailed(TransportError),
}

pub enum StreamOutcomeView {
    Established,
    ConnectFailed(TransportErrorView),
    Closed,
    RecvFailed(TransportErrorView),
    SendFailed(TransportErrorView),
}

impl View for StreamOutcome {
    type V = StreamOutcomeView;

    open spec fn view(&self) -> StreamOutcomeView {
        match self {
            StreamOutcome::Established => StreamOutcomeView::Established,
            StreamOutcome::ConnectFailed(e) => StreamOutcomeView::ConnectFailed(e@),
            StreamOutcome::Closed => StreamOutcomeView::Closed,
            StreamOutcome::RecvFailed(e) => StreamOutcomeView::RecvFailed(e@),
            StreamOutcome::SendFailed(e) => StreamOutcomeView::SendFailed(e@),
        }
    }
}

/// What a session tells its user.
#[derive(Debug)]
pub enum SessionEvent {
    Connected,
    ErrorFrame(Frame),
    Receipt { id: String, original: Frame, receipt: Frame },
    Message { destination: String, ack_mode: AckMode, frame: Frame },
    SubscriptionlessFrame(Frame),
    UnknownFrame(Frame),
    Disconnected(DisconnectionReason),
}

pub enum SessionEventView {
    Connected,
    ErrorFrame(FrameView),
    Receipt { id: Seq<char>, original: FrameView, receipt: FrameView },
    Message { destination: Seq<char>, ack_mode: AckMode, frame: FrameView },
    SubscriptionlessFrame(FrameView),
    UnknownFrame(FrameView),
    Disconnected(DisconnectionReasonView),
}

impl View for SessionEvent {
    type V = SessionEventView;

    open spec fn view(&self) -> SessionEventView {
        match self {
            SessionEvent::Connected => SessionEventView::Connected,
            SessionEvent::ErrorFrame(f) => SessionEventView::ErrorFrame(f@),
            SessionEvent::Receipt { id, original, receipt } => SessionEventView::Receipt {
                id: id@,
                original: original@,
                receipt: receipt@,
            },
            SessionEvent::Message { destination, ack_mode, frame } => SessionEventView::Message {
                destination: destination@,
                ack_mode: *ack_mode,
                frame: frame@,
            },
            SessionEvent::SubscriptionlessFrame(f) => SessionEventView::SubscriptionlessFrame(f@),
            SessionEvent::UnknownFrame(f) => SessionEventView::UnknownFrame(f@),
            SessionEvent::Disconnected(r) => SessionEventView::Disconnected(r@),
        }
    }
}

/// What the session asks of the transport that drives it.
#[derive(Debug)]
pub enum Action {
    /// Write this to the connection.
    Transmit(Transmission),
    /// (Re)arm the timer for the next heart-beat this side owes, in ms.
    ArmTxTimer(u32),
    /// (Re)arm the timer within which the other side must be heard, in ms.
    ArmRxTimer(u32),
    /// Drop both heart-beat timers.
    DisarmTimers,
}

pub enum ActionView {
    Transmit(TransmissionView),
    ArmTxTimer(u32),
    ArmRxTimer(u32),
    DisarmTimers,
}

impl View for Action {
    type V = ActionView;

    open spec fn view(&self) -> ActionView {
        match self {
            Action::Transmit(t) => ActionView::Transmit(t@),
            Action::ArmTxTimer(ms) => ActionView::ArmTxTimer(*ms),
            Action::ArmRxTimer(ms) => ActionView::ArmRxTimer(*ms),
            Action::DisarmTimers => ActionView::DisarmTimers,
        }
    }
}

/// Where the connection stands.
#[derive(Clone, Copy, Debug, PartialEq, Eq, Structural)]
pub enum StreamState {
    Connecting,
    Connected,
    Failed,
}

/// The counters, negotiated intervals, armed timers, subscriptions and
/// awaited receipts of a session.
pub struct SessionStateView {
    pub next_transaction_id: u32,
    pub next_subscription_id: u32,
    pub next_receipt_id: u32,
    pub rx_heartbeat_ms: Option<u32>,
    pub tx_heartbeat_ms: Option<u32>,
    pub rx_heartbeat_timeout: Option<u32>,
    pub tx_heartbeat_timeout: Option<u32>,
    pub subscriptions: Map<Seq<char>, SubscriptionView>,
    pub outstanding_receipts: Map<Seq<char>, FrameView>,
}

pub struct SessionState {
    next_transaction_id: u32,
    next_subscription_id: u32,
    next_receipt_id: u32,
    pub rx_heartbeat_ms: Option<u32>,
    pub tx_heartbeat_ms: Option<u32>,
    /// The interval the receive timer is armed with, if it is armed.
    pub rx_heartbeat_timeout: Option<u32>,
    /// The interval the send timer is armed with, if it is armed.
    pub tx_heartbeat_timeout: Option<u32>,
    pub subscriptions: KeyedTable<Subscription>,
    pub outstanding_receipts: KeyedTable<OutstandingReceipt>,
}

impl View for SessionState {
    type V = SessionStateView;

    closed spec fn view(&self) -> SessionStateView {
        SessionStateView {
            next_transaction_id: self.next_transaction_id,
            next_subscription_id: self.next_subscription_id,
            next_receipt_id: self.next_receipt_id,
            rx_heartbeat_ms: self.rx_heartbeat_ms,
            tx_heartbeat_ms: self.tx_heartbeat_ms,
            rx_heartbeat_timeout: self.rx_heartbeat_timeout,
            tx_heartbeat_timeout: self.tx_heartbeat_timeout,
            subscriptions: self.subscriptions@,
            outstanding_receipts: self.outstanding_receipts@,
        }
    }
}

/// A fresh session state: every counter at 0, nothing negotiated or armed,
/// no subscriptions, no receipts awaited.
pub open spec fn initial_state() -> SessionStateView {
    SessionStateView {
        next_transaction_id: 0,
        next_subscription_id: 0,
        next_receipt_id: 0,
        rx_heartbeat_ms: None,
        tx_heartbeat_ms: None,
        rx_heartbeat_timeout: None,
        tx_heartbeat_timeout: None,
        subscriptions: Map::empty(),
        outstanding_receipts: Map::empty(),
    }
}

impl SessionState {
    /// The counter the next transaction identifier is taken from.
    pub fn next_transaction_id(&self) -> (n: u32)
        ensures
            n == self@.next_transaction_id,
    {
        self.next_transaction_id
    }

    /// The counter the next subscription identifier is taken from.
    pub fn next_subscription_id(&self) -> (n: u32)
        ensures
            n == self@.next_subscription_id,
    {
        self.next_subscription_id
    }

    /// The counter the next receipt identifier is taken from.
    pub fn next_receipt_id(&self) -> (n: u32)
        ensures
            n == self@.next_receipt_id,
    {
        self.next_receipt_id
    }

    pub fn new() -> (s: SessionState)
        ensures
            s@ == initial_state(),
    {
        SessionState {
            next_transaction_id: 0,
            next_subscription_id: 0,
            next_receipt_id: 0,
            rx_heartbeat_ms: None,
            rx_heartbeat_timeout: None,
            tx_heartbeat_ms: None,
            tx_heartbeat_timeout: None,
            subscriptions: KeyedTable::new(),
            outstanding_receipts: KeyedTable::new(),
        }
    }
}

/// A session as the protocol sees it.
pub struct SessionView {
    pub config: SessionConfigView,
    pub state: SessionStateView,
    pub stream: StreamState,
    /// Events not yet handed to the user, oldest first.
    pub events: Seq<SessionEventView>,
    /// Actions not yet taken by the transport, oldest first.
    pub actions: Seq<ActionView>,
}

pub struct Session {
    config: SessionConfig,
    pub state: SessionState,
    stream: StreamState,
    events: VecDeque<SessionEvent>,
    actions: Vec<Action>,
}

pub open spec fn event_views(s: Seq<SessionEvent>) -> Seq<SessionEventView> {
    s.map_values(|e: SessionEvent| e@)
}

pub open spec fn action_views(s: Seq<Action>) -> Seq<ActionView> {
    s.map_values(|a: Action| a@)
}

impl View for Session {
    type V = SessionView;

    closed spec fn view(&self) -> SessionView {
        SessionView {
            config: self.config@,
            state: self.state@,
            stream: self.stream,
            events: event_views(self.events@),
            actions: action_views(self.actions@),
        }
    }
}

/// `s` after a transmission: it is queued where the stream is connected,
/// and dropped otherwise.
pub open spec fn after_send(s: SessionView, t: TransmissionView) -> SessionView {
    if s.stream == StreamState::Connected {
        SessionView { actions: s.actions.push(ActionView::Transmit(t)), ..s }
    } else {
        s
    }
}

/// `s` after the user is told of `e`.
pub open spec fn after_event(s: SessionView, e: SessionEventView) -> SessionView {
    SessionView { events: s.events.push(e), ..s }
}

/// `s` after the send timer is (re)armed where an interval other than 0 was
/// negotiated.
pub open spec fn after_register_tx(s: SessionView) -> SessionView {
    match s.state.tx_heartbeat_ms {
        Some(ms) => if ms == 0 {
            s
        } else {
            SessionView {
                state: SessionStateView { tx_heartbeat_timeout: Some(ms), ..s.state },
                actions: s.actions.push(ActionView::ArmTxTimer(ms)),
                ..s
            }
        },
        None => s,
    }
}

/// `s` after the receive timer is (re)armed where an interval other than 0
/// was negotiated.
pub open spec fn after_register_rx(s: SessionView) -> SessionView {
    match s.state.rx_heartbeat_ms {
        Some(ms) => if ms == 0 {
            s
        } else {
            SessionView {
                state: SessionStateView { rx_heartbeat_timeout: Some(ms), ..s.state },
                actions: s.actions.push(ActionView::ArmRxTimer(ms)),
                ..s
            }
        },
        None => s,
    }
}

/// `s` after data arrived: the receive timer starts over where one was
/// negotiated.
pub open spec fn after_recv_data(s: SessionView) -> SessionView {
    if s.state.rx_heartbeat_ms is Some {
        after_register_rx(s)
    } else {
        s
    }
}

/// `s` after the session ends for `reason`: the user is told, the stream is
/// failed and both timers are dropped.
pub open spec fn after_disconnect(s: SessionView, reason: DisconnectionReasonView) -> SessionView {
    SessionView {
        events: s.events.push(SessionEventView::Disconnected(reason)),
        stream: StreamState::Failed,
        state: SessionStateView { tx_heartbeat_timeout: None, rx_heartbeat_timeout: None, ..s.state },
        actions: s.actions.push(ActionView::DisarmTimers),
        ..s
    }
}

/// The value of the heart-beat header a CONNECT frame carries.
pub open spec fn heart_beat_text(hb: HeartBeat) -> Seq<char> {
    decimal(hb.0 as nat) + ","@ + decimal(hb.1 as nat)
}

/// The CONNECT headers once the stream is ready: those configured, then the
/// login and passcode where there are credentials, then the heart-beat.
pub open spec fn connect_headers(c: SessionConfigView) -> Seq<HeaderView> {
    let with_login = match c.credentials {
        Some((login, passcode)) => c.headers.push(("login"@, login)).push(("passcode"@, passcode)),
        None => c.headers,
    };
    with_login.push(("heart-beat"@, heart_beat_text(c.heartbeat)))
}

/// `s` once its stream is connected: the CONNECT headers are completed and
/// the CONNECT frame is sent.
pub open spec fn after_stream_ready(s: SessionView) -> SessionView {
    let ready = SessionView {
        stream: StreamState::Connected,
        config: SessionConfigView { headers: connect_headers(s.config), ..s.config },
        ..s
    };
    after_send(ready, TransmissionView::CompleteFrame(bodiless(Command::Connect, connect_headers(s.config))))
}

/// `s` after what became of its stream: a made connection sends CONNECT;
/// a failed, closed or broken stream ends the session for that reason.
pub open spec fn after_stream_outcome(s: SessionView, outcome: StreamOutcomeView) -> SessionView {
    match outcome {
        StreamOutcomeView::Established => after_stream_ready(s),
        StreamOutcomeView::ConnectFailed(e) => after_disconnect(s, DisconnectionReasonView::ConnectFailed(e)),
        StreamOutcomeView::Closed => after_disconnect(s, DisconnectionReasonView::ClosedByOtherSide),
        StreamOutcomeView::RecvFailed(e) => after_disconnect(s, DisconnectionReasonView::RecvFailed(e)),
        StreamOutcomeView::SendFailed(e) => after_disconnect(s, DisconnectionReasonView::SendFailed(e)),
    }
}

/// `s` once the server accepted the connection with these intervals: they
/// take effect, the timers are armed where they are not 0, and the user is
/// told.
pub open spec fn after_connected(s: SessionView, tx_ms: u32, rx_ms: u32) -> SessionView {
    after_event(
        after_register_rx(after_register_tx(SessionView {
            state: SessionStateView { rx_heartbeat_ms: Some(rx_ms), tx_heartbeat_ms: Some(tx_ms), ..s.state },
            ..s
        })),
        SessionEventView::Connected,
    )
}

/// The intervals a CONNECTED frame settles: what the session asked for,
/// against the server's heart-beat header (no heart-beats where it has none
/// that can be read).
pub open spec fn negotiated(c: SessionConfigView, connected: FrameView) -> (u32, u32) {
    let (server_tx, server_rx) = match lookup(connected.headers, "heart-beat"@) {
        Some(v) => match parse_heart_beat(v) {
            Some(hb) => (hb.0, hb.1),
            None => (0u32, 0u32),
        },
        None => (0u32, 0u32),
    };
    selected(c.heartbeat.0, c.heartbeat.1, server_tx, server_rx)
}

/// `s` after a MESSAGE frame: delivered for its subscription where its
/// `subscription` header names one the session has, else as a frame of no
/// subscription.
pub open spec fn after_message(s: SessionView, frame: FrameView) -> SessionView {
    match lookup(frame.headers, "subscription"@) {
        Some(id) => if s.state.subscriptions.dom().contains(id) {
            after_event(s, SessionEventView::Message {
                destination: s.state.subscriptions[id].destination,
                ack_mode: s.state.subscriptions[id].ack_mode,
                frame,
            })
        } else {
            after_event(s, SessionEventView::SubscriptionlessFrame(frame))
        },
        None => after_event(s, SessionEventView::SubscriptionlessFrame(frame)),
    }
}

/// `s` after a RECEIPT frame: the receipt that ends the session disconnects
/// it; an awaited receipt is handed to the user with the frame that asked
/// for it, and is no longer awaited.
pub open spec fn after_receipt(s: SessionView, frame: FrameView) -> SessionView {
    match lookup(frame.headers, "receipt-id"@) {
        Some(id) => {
            let s1 = if id == disconnect_receipt() {
                after_disconnect(s, DisconnectionReasonView::Requested)
            } else {
                s
            };
            if s1.state.outstanding_receipts.dom().contains(id) {
                SessionView {
                    state: SessionStateView {
                        outstanding_receipts: s1.state.outstanding_receipts.remove(id),
                        ..s1.state
                    },
                    events: s1.events.push(SessionEventView::Receipt {
                        id,
                        original: s1.state.outstanding_receipts[id],
                        receipt: frame,
                    }),
                    ..s1
                }
            } else {
                s1
            }
        },
        None => s,
    }
}

/// `s` after a transmission arrives. A CONNECTED frame is only half handled
/// here: what follows it depends on the grace period the transport allows
/// (see `Session::on_connected_frame_received`).
pub open spec fn after_transmission(s: SessionView, t: TransmissionView) -> SessionView {
    let s1 = after_recv_data(s);
    match t {
        TransmissionView::HeartBeat => s1,
        TransmissionView::CompleteFrame(frame) => match frame.command {
            Command::Error => after_event(s1, SessionEventView::ErrorFrame(frame)),
            Command::Receipt => after_receipt(s1, frame),
            Command::Connected => s1,
            Command::Message => after_message(s1, frame),
            _ => after_event(s1, SessionEventView::UnknownFrame(frame)),
        },
    }
}

impl Session {
    /// A session with these settings whose stream is being connected.
    pub fn new(config: SessionConfig) -> (s: Session)
        ensures
            s@ == (SessionView {
                config: config@,
                state: initial_state(),
                stream: StreamState::Connecting,
                events: Seq::empty(),
                actions: Seq::empty(),
            }),
    {
        let s = Session {
            config,
            state: SessionState::new(),
            events: VecDeque::new(),
            stream: StreamState::Connecting,
            actions: Vec::new(),
        };
        assert(s@.events =~= Seq::<SessionEventView>::empty());
        assert(s@.actions =~= Seq::<ActionView>::empty());
        s
    }

    /// The settings the session runs with.
    pub fn config(&self) -> (c: &SessionConfig)
        ensures
            c@ == self@.config,
    {
        &self.config
    }

    /// Where the stream stands.
    pub fn stream_state(&self) -> (st: StreamState)
        ensures
            st == self@.stream,
    {
        self.stream
    }

    /// The stream is being connected again.
    pub fn reconnect(&mut self)
        ensures
            final(self)@ == (SessionView { stream: StreamState::Connecting, ..old(self)@ }),
    {
        self.stream = StreamState::Connecting;
    }

    /// Hands the oldest event not yet handed out to the user.
    pub fn next_event(&mut self) -> (e: Option<SessionEvent>)
        ensures
            old(self)@.events.len() == 0 ==> e is None && final(self)@ == old(self)@,
            old(self)@.events.len() > 0 ==> (e matches Some(ev) && ev@ == old(self)@.events[0]
                && final(self)@ == (SessionView { events: old(self)@.events.drop_first(), ..old(self)@ })),
    {
        let e = self.events.pop_front();
        assert(self@.events =~= if old(self)@.events.len() > 0 { old(self)@.events.drop_first() } else { old(self)@.events });
        e
    }

    /// Takes the actions the transport has not yet carried out, oldest first.
    pub fn take_actions(&mut self) -> (a: Vec<Action>)
        ensures
            action_views(a@) == old(self)@.actions,
            final(self)@ == (SessionView { actions: Seq::empty(), ..old(self)@ }),
    {
        let mut taken: Vec<Action> = Vec::new();
        std::mem::swap(&mut taken, &mut self.actions);
        assert(self@.actions =~= Seq::<ActionView>::empty());
        taken
    }

    fn push_event(&mut self, e: SessionEvent)
        ensures
            final(self)@ == after_event(old(self)@, e@),
    {
        self.events.push_back(e);
        assert(self@.events =~= old(self)@.events.push(e@));
    }

    fn push_action(&mut self, a: Action)
        ensures
            final(self)@ == (SessionView { actions: old(self)@.actions.push(a@), ..old(self)@ }),
    {
        self.actions.push(a);
        assert(self@.actions =~= old(self)@.actions.push(a@));
    }

    pub fn generate_transaction_id(&mut self) -> (id: u32)
        requires
            old(self)@.state.next_transaction_id < u32::MAX,
        ensures
            id == old(self)@.state.next_transaction_id,
            final(self)@ == (SessionView {
                state: SessionStateView { next_transaction_id: (id + 1) as u32, ..old(self)@.state },
                ..old(self)@
            }),
    {
        let id = self.state.next_transaction_id;
        self.state.next_transaction_id = id + 1;
        id
    }

    pub fn generate_subscription_id(&mut self) -> (id: u32)
        requires
            old(self)@.state.next_subscription_id < u32::MAX,
        ensures
            id == old(self)@.state.next_subscription_id,
            final(self)@ == (SessionView {
                state: SessionStateView { next_subscription_id: (id + 1) as u32, ..old(self)@.state },
                ..old(self)@
            }),
    {
        let id = self.state.next_subscription_id;
        self.state.next_subscription_id = id + 1;
        id
    }

    pub fn generate_receipt_id(&mut self) -> (id: u32)
        requires
            old(self)@.state.next_receipt_id < u32::MAX,
        ensures
            id == old(self)@.state.next_receipt_id,
            final(self)@ == (SessionView {
                state: SessionStateView { next_receipt_id: (id + 1) as u32, ..old(self)@.state },
                ..old(self)@
            }),
    {
        let id = self.state.next_receipt_id;
        self.state.next_receipt_id = id + 1;
        id
    }

    fn send(&mut self, tx: Transmission)
        ensures
            final(self)@ == after_send(old(self)@, tx@),
    {
        if self.stream == StreamState::Connected {
            self.push_action(Action::Transmit(tx));
        }
    }

    /// Sends a frame where the stream is connected; drops it otherwise.
    pub fn send_frame(&mut self, fr: Frame)
        ensures
            final(self)@ == after_send(old(self)@, TransmissionView::CompleteFrame(fr@)),
    {
        self.send(Transmission::CompleteFrame(fr))
    }

    /// Starts a message of `body` to `destination`.
    pub fn message<'builder>(&'builder mut self, destination: &str, body: &[u8]) -> (b: MessageBuilder<'builder>)
        ensures
            b.frame@ == Frame::send_view(destination@, body@),
            b.receipt_request is None,
            *b.session == *old(self),
            *final(self) == *final(b.session),
    {
        let send_frame = Frame::send(destination, body);
        MessageBuilder::new(self, send_frame)
    }

    /// Starts a subscription to `destination`.
    pub fn subscription<'builder>(&'builder mut self, destination: &str) -> (b: SubscriptionBuilder<'builder>)
        ensures
            b.destination@ == destination@,
            b.ack_mode == AckMode::Auto,
            b.headers@ == Seq::<HeaderView>::empty(),
            b.receipt_request is None,
            *b.session == *old(self),
            *final(self) == *final(b.session),
    {
        SubscriptionBuilder::new(self, destination.to_owned())
    }

    /// Starts a transaction under a new identifier and sends its BEGIN frame.
    pub fn begin_transaction<'b>(&'b mut self) -> (t: Transaction<'b>)
        requires
            old(self)@.state.next_transaction_id < u32::MAX,
        ensures
            t.id@ == crate::transaction::transaction_id_text(old(self)@.state.next_transaction_id),
            t.session@ == after_send(
                SessionView {
                    state: SessionStateView {
                        next_transaction_id: (old(self)@.state.next_transaction_id + 1) as u32,
                        ..old(self)@.state
                    },
                    ..old(self)@
                },
                TransmissionView::CompleteFrame(bodiless(Command::Begin, seq![("transaction"@, t.id@)])),
            ),
            *final(self) == *final(t.session),
    {
        let mut transaction = Transaction::new(self);
        transaction.begin();
        transaction
    }

    /// Forgets the subscription `sub_id` and tells the server.
    pub fn unsubscribe(&mut self, sub_id: &str)
        ensures
            final(self)@ == after_send(
                SessionView {
                    state: SessionStateView {
                        subscriptions: old(self)@.state.subscriptions.remove(sub_id@),
                        ..old(self)@.state
                    },
                    ..old(self)@
                },
                TransmissionView::CompleteFrame(bodiless(Command::Unsubscribe, seq![("id"@, sub_id@)])),
            ),
    {
        let _ = self.state.subscriptions.remove(sub_id);
        let unsubscribe_frame = Frame::unsubscribe(sub_id);
        self.send(Transmission::CompleteFrame(unsubscribe_frame))
    }

    /// Asks the server to end the session, with a receipt.
    pub fn disconnect(&mut self)
        ensures
            final(self)@ == after_send(old(self)@, TransmissionView::CompleteFrame(
                bodiless(Command::Disconnect, seq![("receipt"@, disconnect_receipt())]),
            )),
    {
        self.send_frame(Frame::disconnect());
    }

    /// Acknowledges, or refuses, a frame that carries an `ack` header; a
    /// frame without one is left alone.
    pub fn acknowledge_frame(&mut self, frame: &Frame, which: AckOrNack)
        ensures
            final(self)@ == (match lookup(frame@.headers, "ack"@) {
                Some(ack_id) => after_send(old(self)@, TransmissionView::CompleteFrame(bodiless(
                    match which {
                        AckOrNack::Ack => Command::Ack,
                        AckOrNack::Nack => Command::Nack,
                    },
                    seq![("id"@, ack_id)],
                ))),
                None => old(self)@,
            }),
    {
        if let Some(ack_id) = frame.headers.get_ack() {
            let ack_frame = match which {
                AckOrNack::Ack => Frame::ack(ack_id.as_str()),
                AckOrNack::Nack => Frame::nack(ack_id.as_str()),
            };
            self.send_frame(ack_frame);
        }
    }

    fn register_tx_heartbeat_timeout(&mut self)
        ensures
            final(self)@ == after_register_tx(old(self)@),
    {
        match self.state.tx_heartbeat_ms {
            None => {},
            Some(tx_heartbeat_ms) => {
                if tx_heartbeat_ms != 0 {
                    self.state.tx_heartbeat_timeout = Some(tx_heartbeat_ms);
                    self.push_action(Action::ArmTxTimer(tx_heartbeat_ms));
                }
            },
        }
    }

    fn register_rx_heartbeat_timeout(&mut self)
        ensures
            final(self)@ == after_register_rx(old(self)@),
    {
        let rx_heartbeat_ms = match self.state.rx_heartbeat_ms {
            Some(ms) => ms,
            None => 0,
        };
        if rx_heartbeat_ms != 0 {
            self.state.rx_heartbeat_timeout = Some(rx_heartbeat_ms);
            self.push_action(Action::ArmRxTimer(rx_heartbeat_ms));
        }
    }

    fn on_recv_data(&mut self)
        ensures
            final(self)@ == after_recv_data(old(self)@),
    {
        if self.state.rx_heartbeat_ms.is_some() {
            self.register_rx_heartbeat_timeout();
        }
    }

    fn reply_to_heartbeat(&mut self)
        ensures
            final(self)@ == after_register_tx(after_send(old(self)@, TransmissionView::HeartBeat)),
    {
        self.send(Transmission::HeartBeat);
        self.register_tx_heartbeat_timeout();
    }

    /// The session has ended: the user is told why, the stream is failed and
    /// both heart-beat timers are dropped.
    pub fn on_disconnect(&mut self, reason: DisconnectionReason)
        ensures
            final(self)@ == after_disconnect(old(self)@, reason@),
    {
        self.push_event(SessionEvent::Disconnected(reason));
        self.stream = StreamState::Failed;
        self.state.tx_heartbeat_timeout = None;
        self.state.rx_heartbeat_timeout = None;
        self.push_action(Action::DisarmTimers);
    }

    /// The stream is connected: the login, passcode and heart-beat join the
    /// CONNECT headers, and the CONNECT frame is sent.
    pub fn on_stream_ready(&mut self)
        ensures
            final(self)@ == after_stream_ready(old(self)@),
    {
        self.stream = StreamState::Connected;
        let ghost c = old(self)@.config;
        match &self.config.credentials {
            Some(credentials) => {
                let login = Header::new("login", credentials.login.as_str());
                let passcode = Header::new("passcode", credentials.passcode.as_str());
                self.config.headers.push(login);
                self.config.headers.push(passcode);
            },
            None => {},
        }
        let HeartBeat(client_tx_ms, client_rx_ms) = self.config.heartbeat;
        let mut heart_beat_string = String::new();
        push_decimal(&mut heart_beat_string, client_tx_ms as u64);
        crate::text::push_char(&mut heart_beat_string, ',');
        push_decimal(&mut heart_beat_string, client_rx_ms as u64);
        proof { reveal_strlit(","); }
        assert(heart_beat_string@ =~= heart_beat_text(c.heartbeat));
        self.config.headers.push(Header::new("heart-beat", heart_beat_string.as_str()));
        assert(self.config.headers@ =~= connect_headers(c));
        let connect_frame = Frame {
            command: Command::Connect,
            headers: self.config.headers.clone(),
            body: Vec::new(),
        };
        assert(connect_frame@ =~= bodiless(Command::Connect, connect_headers(c)));
        self.send_frame(connect_frame);
    }

    /// Answers what became of the stream: a made connection sends CONNECT;
    /// a connect failure, a close by the other side, or a failed read or
    /// write ends the session for that reason.
    pub fn on_stream_outcome(&mut self, outcome: StreamOutcome)
        ensures
            final(self)@ == after_stream_outcome(old(self)@, outcome@),
    {
        match outcome {
            StreamOutcome::Established => self.on_stream_ready(),
            StreamOutcome::ConnectFailed(e) => self.on_disconnect(DisconnectionReason::ConnectFailed(e)),
            StreamOutcome::Closed => self.on_disconnect(DisconnectionReason::ClosedByOtherSide),
            StreamOutcome::RecvFailed(e) => self.on_disconnect(DisconnectionReason::RecvFailed(e)),
            StreamOutcome::SendFailed(e) => self.on_disconnect(DisconnectionReason::SendFailed(e)),
        }
    }

    /// Delivers a MESSAGE frame for its subscription.
    fn on_message(&mut self, frame: Frame)
        ensures
            final(self)@ == after_message(old(self)@, frame@),
    {
        let mut sub_data: Option<(String, AckMode)> = None;
        if let Some(sub_id) = frame.headers.get_subscription() {
            if let Some(sub) = self.state.subscriptions.get(sub_id.as_str()) {
                sub_data = Some((sub.destination.clone(), sub.ack_mode));
            }
        }
        if let Some((destination, ack_mode)) = sub_data {
            self.push_event(SessionEvent::Message { destination, ack_mode, frame });
        } else {
            self.push_event(SessionEvent::SubscriptionlessFrame(frame));
        }
    }

    /// The intervals that a CONNECTED frame settles.
    pub fn negotiate_heartbeat(&self, connected_frame: &Frame) -> (r: (u32, u32))
        ensures
            r == negotiated(self@.config, connected_frame@),
    {
        let HeartBeat(client_tx_ms, client_rx_ms) = self.config.heartbeat;
        let (server_tx_ms, server_rx_ms) = match connected_frame.headers.get_heart_beat() {
            Some(HeartBeat(tx_ms, rx_ms)) => (tx_ms, rx_ms),
            None => (0, 0),
        };
        select_heartbeat(client_tx_ms, client_rx_ms, server_tx_ms, server_rx_ms)
    }

    /// The server accepted the connection: the agreed sending interval and
    /// the receive interval (the agreed one with its grace period) take
    /// effect, both timers are armed where not 0, and the user is told.
    pub fn on_connected_frame_received(&mut self, agreed_tx_ms: u32, rx_heartbeat_ms: u32)
        ensures
            final(self)@ == after_connected(old(self)@, agreed_tx_ms, rx_heartbeat_ms),
    {
        self.state.rx_heartbeat_ms = Some(rx_heartbeat_ms);
        self.state.tx_heartbeat_ms = Some(agreed_tx_ms);
        self.register_tx_heartbeat_timeout();
        self.register_rx_heartbeat_timeout();
        self.push_event(SessionEvent::Connected);
    }

    /// Answers a RECEIPT frame.
    fn handle_receipt(&mut self, frame: Frame)
        ensures
            final(self)@ == after_receipt(old(self)@, frame@),
    {
        if let Some(receipt_id) = frame.headers.get_receipt_id() {
            let disconnect_id = "msg/disconnect".to_owned();
            if receipt_id == disconnect_id {
                self.on_disconnect(DisconnectionReason::Requested);
            }
            let ghost s1 = self@;
            assert(s1 == (if receipt_id@ == disconnect_receipt() {
                after_disconnect(old(self)@, DisconnectionReasonView::Requested)
            } else {
                old(self)@
            }));
            if let Some(entry) = self.state.outstanding_receipts.remove(receipt_id.as_str()) {
                let original_frame = entry.original_frame;
                assert(self@ == SessionView {
                    state: SessionStateView {
                        outstanding_receipts: s1.state.outstanding_receipts.remove(receipt_id@),
                        ..s1.state
                    },
                    ..s1
                });
                self.push_event(SessionEvent::Receipt {
                    id: receipt_id,
                    original: original_frame,
                    receipt: frame,
                });
            } else {
                assert(s1.state.outstanding_receipts.remove(receipt_id@) =~= s1.state.outstanding_receipts);
            }
        }
    }

    /// Answers a transmission from the server. For a CONNECTED frame the
    /// intervals it settles are handed back: the transport adds its grace
    /// period to the receive interval and calls
    /// `on_connected_frame_received`.
    pub fn on_transmission(&mut self, tx: Transmission) -> (agreed: Option<(u32, u32)>)
        ensures
            final(self)@ == after_transmission(old(self)@, tx@),
            agreed == (match tx@ {
                TransmissionView::CompleteFrame(f) => if f.command == Command::Connected {
                    Some(negotiated(old(self)@.config, f))
                } else {
                    None
                },
                TransmissionView::HeartBeat => None,
            }),
    {
        self.on_recv_data();
        match tx {
            Transmission::HeartBeat => None,
            Transmission::CompleteFrame(frame) => {
                match frame.command {
                    Command::Error => {
                        self.push_event(SessionEvent::ErrorFrame(frame));
                        None
                    },
                    Command::Receipt => {
                        self.handle_receipt(frame);
                        None
                    },
                    Command::Connected => Some(self.negotiate_heartbeat(&frame)),
                    Command::Message => {
                        self.on_message(frame);
                        None
                    },
                    _ => {
                        self.push_event(SessionEvent::UnknownFrame(frame));
                        None
                    },
                }
            },
        }
    }

    /// Nothing was heard from the server within the receive interval.
    pub fn on_rx_heartbeat_timeout(&mut self)
        ensures
            final(self)@ == after_disconnect(old(self)@, DisconnectionReasonView::HeartbeatTimeout),
    {
        self.on_disconnect(DisconnectionReason::HeartbeatTimeout);
    }

    /// A heart-beat is owed to the server: it is sent and the timer rearmed.
    pub fn on_tx_heartbeat_timeout(&mut self)
        ensures
            final(self)@ == after_register_tx(after_send(old(self)@, TransmissionView::HeartBeat)),
    {
        self.reply_to_heartbeat();
    }

    /// Awaits the receipt `id`, which answers `frame`.
    pub fn await_receipt(&mut self, id: String, frame: Frame)
        ensures
            final(self)@ == (SessionView {
                state: SessionStateView {
                    outstanding_receipts: old(self)@.state.outstanding_receipts.insert(id@, frame@),
                    ..old(self)@.state
                },
                ..old(self)@
            }),
    {
        self.state.outstanding_receipts.insert(id, OutstandingReceipt::new(frame));
    }

    /// Records a subscription under its identifier.
    pub fn add_subscription(&mut self, subscription: Subscription)
        ensures
            final(self)@ == (SessionView {
                state: SessionStateView {
                    subscriptions: old(self)@.state.subscriptions.insert(subscription.id@, subscription@),
                    ..old(self)@.state
                },
                ..old(self)@
            }),
    {
        let id = subscription.id.clone();
        self.state.subscriptions.insert(id, subscription);
    }
}

} // verus!
