//! A subscription being put together before it starts.
use vstd::prelude::*;
use crate::frame::{bodiless, Command, Frame, TransmissionView};
use crate::header::HeaderList;
use crate::message_builder::awaiting;
use crate::option_setter::OptionSetter;
use crate::session::{after_send, ReceiptRequest, Session, SessionStateView, SessionView};
use crate::subscription::{ack_mode_text, subscription_id_text, AckMode, Subscription, SubscriptionView};

verus! {

/// A destination to listen to, how to acknowledge what arrives, the extra
/// SUBSCRIBE headers, and the receipt the subscription asks for.
pub struct SubscriptionBuilder<'a> {
    pub session: &'a mut Session,
    pub destination: String,
    pub ack_mode: AckMode,
    pub headers: HeaderList,
    pub receipt_request: Option<ReceiptRequest>,
}

/// The session after a subscription starts: the identifier is used up, the
/// SUBSCRIBE frame is sent, its receipt awaited where asked for, and the
/// subscription recorded.
pub open spec fn after_start(
    s: SessionView,
    destination: Seq<char>,
    ack_mode: AckMode,
    headers: Seq<crate::header::HeaderView>,
    request: Option<ReceiptRequest>,
) -> SessionView {
    let n = s.state.next_subscription_id;
    let id = subscription_id_text(n);
    let frame = bodiless(Command::Subscribe,
        seq![("destination"@, destination), ("id"@, id), ("ack"@, ack_mode_text(ack_mode))] + headers);
    let s1 = SessionView {
        state: SessionStateView { next_subscription_id: (n + 1) as u32, ..s.state },
        ..s
    };
    let s2 = awaiting(after_send(s1, TransmissionView::CompleteFrame(frame)), request, frame);
    SessionView {
        state: SessionStateView {
            subscriptions: s2.state.subscriptions.insert(id, SubscriptionView {
                id,
                destination,
                ack_mode,
                headers,
            }),
            ..s2.state
        },
        ..s2
    }
}

impl<'a> SubscriptionBuilder<'a> {
    pub fn new(session: &'a mut Session, destination: String) -> (b: SubscriptionBuilder<'a>)
        ensures
            b.destination == destination,
            b.ack_mode == AckMode::Auto,
            b.headers@ == Seq::<crate::header::HeaderView>::empty(),
            b.receipt_request is None,
            *b.session == *old(session),
            *final(session) == *final(b.session),
    {
        SubscriptionBuilder {
            session,
            destination,
            ack_mode: AckMode::Auto,
            headers: HeaderList::new(),
            receipt_request: None,
        }
    }

    /// Starts the subscription and hands back its identifier.
    pub fn start(self) -> (id: String)
        requires
            old(self.session)@.state.next_subscription_id < u32::MAX,
        ensures
            id@ == subscription_id_text(old(self.session)@.state.next_subscription_id),
            final(self.session)@ == after_start(old(self.session)@, self.destination@, self.ack_mode,
                self.headers@, self.receipt_request),
    {
        let SubscriptionBuilder { session, destination, ack_mode, headers, receipt_request } = self;
        let mut headers = headers;
        let next_id = session.generate_subscription_id();
        let subscription = Subscription::new(next_id, destination.as_str(), ack_mode, headers.clone());
        let mut subscribe_frame = Frame::subscribe(subscription.id.as_str(), destination.as_str(), ack_mode);
        subscribe_frame.headers.concat(&mut headers);
        session.send_frame(subscribe_frame.clone());
        if let Some(request) = receipt_request {
            session.await_receipt(request.id, subscribe_frame.clone());
        }
        let id_to_return = subscription.id.clone();
        session.add_subscription(subscription);
        id_to_return
    }

    /// Applies one option to the subscription.
    pub fn with<O: OptionSetter<SubscriptionBuilder<'a>>>(self, option_setter: O) -> (b: SubscriptionBuilder<'a>)
        requires
            option_setter.admits(self),
        ensures
            option_setter.applied(self, b),
    {
        option_setter.set_option(self)
    }
}

} // verus!
