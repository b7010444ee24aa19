//! What holds of the session across its operations: identifiers never
//! repeat, receipts come back to the frames that asked for them, messages
//! reach their subscription, and the heart-beat a client announces is the
//! one a server reads.
use vstd::prelude::*;
use crate::connection::HeartBeat;
use crate::frame::{disconnect_receipt, Command, FrameView, TransmissionView};
use crate::header::{first_comma, lookup, parse_heart_beat, HeaderView};
use crate::message_builder::awaiting;
use crate::message_builder::MessageBuilder;
use crate::option_setter::OptionSetter;
use crate::subscription_builder::SubscriptionBuilder;
use crate::session::{
    after_connected, after_stream_ready, connect_headers, negotiated, ActionView,
    after_message, after_receipt, after_recv_data, after_transmission, heart_beat_text, receipt_id_text, GenerateReceipt,
    DisconnectionReasonView, ReceiptRequest, SessionEventView, SessionStateView, SessionView, StreamState,
};
use crate::subscription::{ack_mode_text, subscription_id_text, AckMode};
use crate::subscription_builder::after_start;
use crate::text::{decimal, is_digit, lemma_decimal_value, lemma_parse_decimal};
use crate::transaction::transaction_id_text;

verus! {

proof fn lemma_decimal_injective(n: u32, m: u32)
    requires
        decimal(n as nat) == decimal(m as nat),
    ensures
        n == m,
{
    lemma_parse_decimal(n);
    lemma_parse_decimal(m);
}

proof fn lemma_prefixed_injective(prefix: Seq<char>, n: u32, m: u32)
    requires
        prefix + decimal(n as nat) == prefix + decimal(m as nat),
    ensures
        n == m,
{
    let a = prefix + decimal(n as nat);
    let b = prefix + decimal(m as nat);
    assert(a.subrange(prefix.len() as int, a.len() as int) =~= decimal(n as nat));
    assert(b.subrange(prefix.len() as int, b.len() as int) =~= decimal(m as nat));
    lemma_decimal_injective(n, m);
}

/// Distinct counter values give distinct identifiers, for receipts,
/// subscriptions and transactions alike; since each identifier is taken
/// from a counter that only moves up, a session never hands out the same
/// identifier twice.
pub proof fn lemma_identifiers_distinct(n: u32, m: u32)
    requires
        n != m,
    ensures
        receipt_id_text(n) != receipt_id_text(m),
        subscription_id_text(n) != subscription_id_text(m),
        transaction_id_text(n) != transaction_id_text(m),
{
    if receipt_id_text(n) == receipt_id_text(m) {
        lemma_prefixed_injective("message/"@, n, m);
    }
    if subscription_id_text(n) == subscription_id_text(m) {
        lemma_prefixed_injective("stomp-rs/"@, n, m);
    }
    if transaction_id_text(n) == transaction_id_text(m) {
        lemma_prefixed_injective("tx/"@, n, m);
    }
}

/// The heart-beat a session announces in its CONNECT frame reads back as
/// the intervals it was configured with.
pub proof fn lemma_heart_beat_round_trip(hb: HeartBeat)
    ensures
        parse_heart_beat(heart_beat_text(hb)) == Some(hb),
{
    let tx = decimal(hb.0 as nat);
    let rx = decimal(hb.1 as nat);
    let s = heart_beat_text(hb);
    reveal_strlit(",");
    lemma_decimal_value(hb.0 as nat);
    lemma_decimal_value(hb.1 as nat);
    lemma_parse_decimal(hb.0);
    lemma_parse_decimal(hb.1);
    let c = tx.len() as int;
    assert(s == tx + seq![','] + rx);
    assert(s[c] == ',');
    assert forall|j: int| 0 <= j < c implies s[j] != ',' by {
        assert(s[j] == tx[j]);
        assert(is_digit(tx[j]));
    }
    assert(first_comma(s) == Some(c)) by {
        let k = choose|k: int| 0 <= k < s.len() && s[k] == ',' && forall|j: int| 0 <= j < k ==> s[j] != ',';
        if k > c {
            assert(s[c] != ',');
        }
    }
    assert(s.subrange(0, c) =~= tx);
    assert(s.subrange(c + 1, s.len() as int) =~= rx);
}

/// A frame whose first `receipt-id` header is `id`.
pub open spec fn receipt_for(frame: FrameView, id: Seq<char>) -> bool {
    frame.command == Command::Receipt && lookup(frame.headers, "receipt-id"@) == Some(id)
}

/// A frame that asked for a receipt gets it back: when the RECEIPT for its
/// request arrives, the user is handed the receipt together with the frame
/// that asked for it, and the receipt is no longer awaited, so a second
/// RECEIPT of the same id hands nothing more.
pub proof fn lemma_receipt_returns_original(s: SessionView, request: ReceiptRequest, original: FrameView, receipt: FrameView)
    requires
        receipt_for(receipt, request.id@),
        request.id@ != disconnect_receipt(),
    ensures
        ({
            let waiting = awaiting(s, Some(request), original);
            let answered = after_transmission(waiting, TransmissionView::CompleteFrame(receipt));
            let seen = after_recv_data(waiting);
            &&& answered.events == s.events.push(SessionEventView::Receipt {
                id: request.id@,
                original,
                receipt,
            })
            &&& answered.state.outstanding_receipts == s.state.outstanding_receipts.remove(request.id@)
            &&& answered.stream == s.stream
            &&& after_transmission(answered, TransmissionView::CompleteFrame(receipt)).events == answered.events
        }),
{
    let waiting = awaiting(s, Some(request), original);
    let answered = after_transmission(waiting, TransmissionView::CompleteFrame(receipt));
    assert(s.state.outstanding_receipts.insert(request.id@, original).remove(request.id@)
        =~= s.state.outstanding_receipts.remove(request.id@));
    assert(!answered.state.outstanding_receipts.dom().contains(request.id@));
}

/// A receipt is handed to the user at most once: answering a RECEIPT and
/// then another RECEIPT of the same id (other than the one that ends the
/// session) leaves the second without effect, whether the id was awaited
/// or not.
pub proof fn lemma_receipt_handed_once(s: SessionView, first: FrameView, second: FrameView, id: Seq<char>)
    requires
        lookup(first.headers, "receipt-id"@) == Some(id),
        lookup(second.headers, "receipt-id"@) == Some(id),
        id != disconnect_receipt(),
    ensures
        after_receipt(after_receipt(s, first), second) == after_receipt(s, first),
        ({
            let once = after_transmission(s, TransmissionView::CompleteFrame(first));
            let twice = after_transmission(once, TransmissionView::CompleteFrame(second));
            first.command == Command::Receipt && second.command == Command::Receipt ==> {
                &&& twice.events == once.events
                &&& twice.state.outstanding_receipts == once.state.outstanding_receipts
                &&& twice.stream == once.stream
            }
        }),
{
    let once = after_receipt(s, first);
    assert(!once.state.outstanding_receipts.dom().contains(id));
    let r = after_recv_data(s);
    let r1 = after_receipt(r, first);
    assert(!r1.state.outstanding_receipts.dom().contains(id));
}

/// What taking a receipt identifier does: the session's receipt counter
/// moves from `before` to `after`, one up, and the receipt asked for is the
/// one numbered `before`.
pub open spec fn receipt_taken(before: u32, after: u32, id: Seq<char>) -> bool {
    after == before + 1 && id == receipt_id_text(before)
}

/// Asking for a receipt on a message takes the session's next receipt
/// identifier.
pub proof fn lemma_message_receipt_taken<'a>(before: MessageBuilder<'a>, after: MessageBuilder<'a>)
    requires
        GenerateReceipt.admits(before),
        GenerateReceipt.applied(before, after),
    ensures
        after.receipt_request is Some,
        receipt_taken(old(before.session)@.state.next_receipt_id, old(after.session)@.state.next_receipt_id,
            after.receipt_request->0.id@),
{
}

/// Asking for a receipt on a subscription takes the session's next receipt
/// identifier.
pub proof fn lemma_subscription_receipt_taken<'a>(before: SubscriptionBuilder<'a>, after: SubscriptionBuilder<'a>)
    requires
        GenerateReceipt.admits(before),
        GenerateReceipt.applied(before, after),
    ensures
        after.receipt_request is Some,
        receipt_taken(old(before.session)@.state.next_receipt_id, old(after.session)@.state.next_receipt_id,
            after.receipt_request->0.id@),
{
}

/// Receipts a session asks for one after the other, on messages or
/// subscriptions alike, have distinct identifiers: where the later one is
/// taken once the counter has moved past the earlier one (`n1 + 1 <= n2`),
/// the earlier is `message/n1` and the later `message/n2`.
pub proof fn lemma_receipts_taken_distinct(n1: u32, a1: u32, id1: Seq<char>, n2: u32, a2: u32, id2: Seq<char>)
    requires
        receipt_taken(n1, a1, id1),
        receipt_taken(n2, a2, id2),
        a1 <= n2,
    ensures
        id1 == receipt_id_text(n1),
        id2 == receipt_id_text(n2),
        n2 >= n1 + 1,
        id1 != id2,
{
    lemma_identifiers_distinct(n1, n2);
}

/// The receipt a DISCONNECT frame asks for ends the session: the user is
/// told that the disconnection was requested, the stream is failed and
/// both heart-beat timers are dropped.
pub proof fn lemma_disconnect_receipt_ends_session(s: SessionView, receipt: FrameView)
    requires
        receipt_for(receipt, disconnect_receipt()),
        !s.state.outstanding_receipts.dom().contains(disconnect_receipt()),
    ensures
        ({
            let after = after_transmission(s, TransmissionView::CompleteFrame(receipt));
            &&& after.stream == StreamState::Failed
            &&& after.events == s.events.push(SessionEventView::Disconnected(DisconnectionReasonView::Requested))
            &&& after.state.rx_heartbeat_timeout is None
            &&& after.state.tx_heartbeat_timeout is None
        }),
{
}

/// A MESSAGE frame for a subscription's identifier reaches that
/// subscription: once a subscription has started, a MESSAGE whose
/// `subscription` header is the identifier it was given is delivered with
/// its destination and acknowledgement mode.
pub proof fn lemma_message_reaches_subscription(
    s: SessionView,
    destination: Seq<char>,
    ack_mode: AckMode,
    headers: Seq<crate::header::HeaderView>,
    request: Option<ReceiptRequest>,
    message: FrameView,
)
    requires
        lookup(message.headers, "subscription"@) == Some(subscription_id_text(s.state.next_subscription_id)),
    ensures
        ({
            let started = after_start(s, destination, ack_mode, headers, request);
            after_message(started, message).events == started.events.push(SessionEventView::Message {
                destination,
                ack_mode,
                frame: message,
            })
        }),
{
}

/// Once unsubscribed, a subscription no longer receives: a MESSAGE for it
/// is delivered as a frame of no subscription.
pub proof fn lemma_unsubscribed_message_unrouted(s: SessionView, id: Seq<char>, message: FrameView)
    requires
        lookup(message.headers, "subscription"@) == Some(id),
    ensures
        ({
            let unsubscribed = SessionView {
                state: SessionStateView { subscriptions: s.state.subscriptions.remove(id), ..s.state },
                ..s
            };
            after_message(unsubscribed, message).events
                == unsubscribed.events.push(SessionEventView::SubscriptionlessFrame(message))
        }),
{
}

/// Anything heard from the server, a frame of any command or a heart-beat,
/// counts as data: where a receive interval other than 0 is set, the
/// receive timer is rearmed with it before the transmission is answered,
/// and it stays armed unless the transmission is the receipt that ends the
/// session.
pub proof fn lemma_any_transmission_rearms_receive_timer(s: SessionView, t: TransmissionView, ms: u32)
    requires
        s.state.rx_heartbeat_ms == Some(ms),
        ms != 0,
    ensures
        after_transmission(s, t).actions.len() > s.actions.len(),
        after_transmission(s, t).actions[s.actions.len() as int] == ActionView::ArmRxTimer(ms),
        after_transmission(s, t).state.rx_heartbeat_timeout == Some(ms)
            || (t matches TransmissionView::CompleteFrame(f) && receipt_for(f, disconnect_receipt())),
{
    let r = after_recv_data(s);
    assert(r.actions == s.actions.push(ActionView::ArmRxTimer(ms)));
    assert(r.state.rx_heartbeat_timeout == Some(ms));
    let after = after_transmission(s, t);
    let k = s.actions.len() as int;
    assert(r.actions[k] == ActionView::ArmRxTimer(ms));
    match t {
        TransmissionView::HeartBeat => {
            assert(after == r);
        },
        TransmissionView::CompleteFrame(frame) => {
            if frame.command == Command::Receipt {
                match lookup(frame.headers, "receipt-id"@) {
                    Some(id) => {
                        if id == disconnect_receipt() {
                            let d = crate::session::after_disconnect(r, DisconnectionReasonView::Requested);
                            assert(d.actions == r.actions.push(ActionView::DisarmTimers));
                            assert(d.actions[k] == r.actions[k]);
                        }
                    },
                    None => {},
                }
            }
        },
    }
}

/// The intervals a CONNECTED frame settles honour both sides: where the
/// server's heart-beat header reads `(sx, sy)` and the session asked for
/// `(cx, cy)`, the session sends every `max(cx, sy)` ms and expects to hear
/// every `max(cy, sx)` ms, or never where either side of that direction
/// says 0; without a readable header nothing is sent or expected.
pub proof fn lemma_negotiation_honours_both_sides(c: crate::session_builder::SessionConfigView, connected: FrameView)
    ensures
        ({
            let (tx, rx) = negotiated(c, connected);
            let (cx, cy) = (c.heartbeat.0, c.heartbeat.1);
            match lookup(connected.headers, "heart-beat"@) {
                Some(v) => match parse_heart_beat(v) {
                    Some(server) => {
                        &&& (tx == 0 <==> (cx == 0 || server.1 == 0))
                        &&& (rx == 0 <==> (cy == 0 || server.0 == 0))
                        &&& tx != 0 ==> tx >= cx && tx >= server.1 && (tx == cx || tx == server.1)
                        &&& rx != 0 ==> rx >= cy && rx >= server.0 && (rx == cy || rx == server.0)
                    },
                    None => tx == 0 && rx == 0,
                },
                None => tx == 0 && rx == 0,
            }
        }),
{
}

/// Once the server accepts the connection, the send timer is armed with the
/// agreed sending interval whenever that is not 0, whatever the receive
/// interval; the receive timer likewise with the receive interval; and the
/// user is told the session is connected.
pub proof fn lemma_connected_arms_timers(s: SessionView, tx_ms: u32, rx_ms: u32)
    ensures
        ({
            let after = after_connected(s, tx_ms, rx_ms);
            &&& after.state.tx_heartbeat_ms == Some(tx_ms)
            &&& after.state.rx_heartbeat_ms == Some(rx_ms)
            &&& tx_ms != 0 ==> after.state.tx_heartbeat_timeout == Some(tx_ms)
                && after.actions[s.actions.len() as int] == ActionView::ArmTxTimer(tx_ms)
            &&& tx_ms == 0 ==> after.state.tx_heartbeat_timeout == s.state.tx_heartbeat_timeout
            &&& rx_ms != 0 ==> after.state.rx_heartbeat_timeout == Some(rx_ms)
                && after.actions.last() == ActionView::ArmRxTimer(rx_ms)
            &&& rx_ms == 0 ==> after.state.rx_heartbeat_timeout == s.state.rx_heartbeat_timeout
            &&& after.actions.len() == s.actions.len() + (if tx_ms != 0 { 1int } else { 0int })
                + (if rx_ms != 0 { 1int } else { 0int })
            &&& after.events == s.events.push(SessionEventView::Connected)
        }),
{
}

/// The CONNECT frame a session sends once its stream is ready ends with a
/// heart-beat header that reads back as the heart-beat the session was
/// configured with, with or without credentials.
pub proof fn lemma_connect_announces_configured_heart_beat(s: SessionView)
    ensures
        ({
            let hs = connect_headers(s.config);
            let after = after_stream_ready(s);
            &&& hs.len() > 0
            &&& hs.last().0 == "heart-beat"@
            &&& parse_heart_beat(hs.last().1) == Some(s.config.heartbeat)
            &&& after.stream == StreamState::Connected
            &&& after.actions.len() == s.actions.len() + 1
            &&& after.actions.last() matches ActionView::Transmit(TransmissionView::CompleteFrame(f))
                && f.command == Command::Connect && f.headers == hs
        }),
{
    lemma_heart_beat_round_trip(s.config.heartbeat);
}

/// The SUBSCRIBE frame a subscription starts with asks for the
/// acknowledgement mode the builder was given, the mode the recorded
/// subscription keeps, under the subscription's identifier and destination.
pub proof fn lemma_subscribe_frame_matches_subscription(
    s: SessionView,
    destination: Seq<char>,
    ack_mode: AckMode,
    headers: Seq<HeaderView>,
    request: Option<ReceiptRequest>,
)
    requires
        s.stream == StreamState::Connected,
    ensures
        after_start(s, destination, ack_mode, headers, request).state.subscriptions.dom().contains(
            subscription_id_text(s.state.next_subscription_id)),
        after_start(s, destination, ack_mode, headers, request).state.subscriptions[
            subscription_id_text(s.state.next_subscription_id)].ack_mode == ack_mode,
        after_start(s, destination, ack_mode, headers, request).state.subscriptions[
            subscription_id_text(s.state.next_subscription_id)].destination == destination,
        after_start(s, destination, ack_mode, headers, request).actions.len() == s.actions.len() + 1,
        after_start(s, destination, ack_mode, headers, request).actions.last()
            matches ActionView::Transmit(TransmissionView::CompleteFrame(f))
            && f.command == Command::Subscribe
            && lookup(f.headers, "ack"@) == Some(ack_mode_text(ack_mode))
            && lookup(f.headers, "id"@) == Some(subscription_id_text(s.state.next_subscription_id))
            && lookup(f.headers, "destination"@) == Some(destination),
{
    reveal_strlit("ack");
    reveal_strlit("id");
    reveal_strlit("destination");
    let id = subscription_id_text(s.state.next_subscription_id);
    let hs = seq![("destination"@, destination), ("id"@, id), ("ack"@, ack_mode_text(ack_mode))] + headers;
    assert(hs[0] == ("destination"@, destination));
    assert(hs[1] == ("id"@, id));
    assert(hs[2] == ("ack"@, ack_mode_text(ack_mode)));
    assert(hs.drop_first()[0] == hs[1]);
    assert(hs.drop_first()[1] == hs[2]);
    assert(hs.drop_first().drop_first()[0] == hs[2]);
    assert("destination"@[0] != "ack"@[0]);
    assert("id"@.len() != "ack"@.len());
    assert("destination"@.len() != "id"@.len());
    let t1 = hs.drop_first();
    let t2 = t1.drop_first();
    assert(t2[0] == ("ack"@, ack_mode_text(ack_mode)));
    assert(lookup(t2, "ack"@) == Some(ack_mode_text(ack_mode)));
    assert(t1[0] == ("id"@, id));
    assert(lookup(t1, "ack"@) == Some(ack_mode_text(ack_mode)));
    assert(lookup(hs, "ack"@) == Some(ack_mode_text(ack_mode)));
    assert(lookup(t1, "id"@) == Some(id));
    assert(lookup(hs, "id"@) == Some(id));
    assert(lookup(hs, "destination"@) == Some(destination));
}

/// Different acknowledgement modes are asked for differently.
pub proof fn lemma_ack_mode_text_injective(a: AckMode, b: AckMode)
    requires
        ack_mode_text(a) == ack_mode_text(b),
    ensures
        a == b,
{
    reveal_strlit("auto");
    reveal_strlit("client");
    reveal_strlit("client-individual");
    let ta = ack_mode_text(a);
    let tb = ack_mode_text(b);
    assert(ta.len() == tb.len());
    assert(ta[0] == tb[0]);
}

} // verus!
