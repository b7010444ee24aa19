//! A message being put together before it is sent.
use vstd::prelude::*;
use crate::frame::{Frame, TransmissionView};
use crate::option_setter::OptionSetter;
use crate::session::{after_send, ReceiptRequest, Session, SessionStateView, SessionView};

verus! {

/// A SEND frame, the session it goes out on, and the receipt it asks for.
pub struct MessageBuilder<'a> {
    pub session: &'a mut Session,
    pub frame: Frame,
    pub receipt_request: Option<ReceiptRequest>,
}

/// `s` awaiting, where `request` asks for one, the receipt that answers
/// `frame`.
pub open spec fn awaiting(s: SessionView, request: Option<ReceiptRequest>, frame: crate::frame::FrameView) -> SessionView {
    match request {
        Some(r) => SessionView {
            state: SessionStateView {
                outstanding_receipts: s.state.outstanding_receipts.insert(r.id@, frame),
                ..s.state
            },
            ..s
        },
        None => s,
    }
}

impl<'a> MessageBuilder<'a> {
    pub fn new(session: &'a mut Session, frame: Frame) -> (b: MessageBuilder<'a>)
        ensures
            b.frame == frame,
            b.receipt_request is None,
            *b.session == *old(session),
            *final(session) == *final(b.session),
    {
        MessageBuilder { session, frame, receipt_request: None }
    }

    /// Sends the frame, awaiting its receipt where one was asked for.
    pub fn send(self)
        ensures
            final(self.session)@ == after_send(
                awaiting(old(self.session)@, self.receipt_request, self.frame@),
                TransmissionView::CompleteFrame(self.frame@),
            ),
    {
        let MessageBuilder { session, frame, receipt_request } = self;
        if let Some(request) = receipt_request {
            session.await_receipt(request.id, frame.clone());
        }
        session.send_frame(frame);
    }

    /// Applies one option to the message.
    pub fn with<O: OptionSetter<MessageBuilder<'a>>>(self, option_setter: O) -> (b: MessageBuilder<'a>)
        requires
            option_setter.admits(self),
        ensures
            option_setter.applied(self, b),
    {
        option_setter.set_option(self)
    }
}

} // verus!
