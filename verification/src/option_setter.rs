//! Options that adjust a builder: a header to add or leave out, a content
//! type, heart-beats, credentials, an acknowledgement mode, or a receipt.
use vstd::prelude::*;
use crate::connection::{Credentials, HeartBeat, OwnedCredentials};
use crate::frame::FrameView;
use crate::header::{without_key, ContentType, Header, SuppressedHeader};
use crate::message_builder::MessageBuilder;
use crate::session::{receipt_id_text, GenerateReceipt, ReceiptRequest, SessionStateView, SessionView};
use crate::session_builder::{SessionBuilder, SessionConfigView};
use crate::subscription::AckMode;
use crate::subscription_builder::SubscriptionBuilder;
use crate::text::push_decimal;

verus! {

/// An option that can be applied to a builder of type `T`.
pub trait OptionSetter<T>: Sized {
    /// What the option needs of the builder it is applied to.
    spec fn admits(&self, builder: T) -> bool;

    /// How the builder after the option relates to the builder before.
    spec fn applied(&self, before: T, after: T) -> bool;

    fn set_option(self, builder: T) -> (r: T)
        requires
            self.admits(builder),
        ensures
            self.applied(builder, r);
}

impl OptionSetter<SessionBuilder> for Header {
    open spec fn admits(&self, builder: SessionBuilder) -> bool {
        true
    }

    /// The header is added after the CONNECT headers.
    open spec fn applied(&self, before: SessionBuilder, after: SessionBuilder) -> bool {
        after@ == SessionConfigView { headers: before@.headers.push(self@), ..before@ }
    }

    fn set_option(self, builder: SessionBuilder) -> (r: SessionBuilder) {
        let mut builder = builder;
        builder.config.headers.push(self);
        builder
    }
}

impl OptionSetter<SessionBuilder> for HeartBeat {
    open spec fn admits(&self, builder: SessionBuilder) -> bool {
        true
    }

    /// The heart-beat intervals the session asks for.
    open spec fn applied(&self, before: SessionBuilder, after: SessionBuilder) -> bool {
        after@ == SessionConfigView { heartbeat: *self, ..before@ }
    }

    fn set_option(self, builder: SessionBuilder) -> (r: SessionBuilder) {
        let mut builder = builder;
        builder.config.heartbeat = self;
        builder
    }
}

impl<'b> OptionSetter<SessionBuilder> for Credentials<'b> {
    open spec fn admits(&self, builder: SessionBuilder) -> bool {
        true
    }

    /// The login and passcode the session connects with.
    open spec fn applied(&self, before: SessionBuilder, after: SessionBuilder) -> bool {
        after@ == SessionConfigView { credentials: Some((self.0@, self.1@)), ..before@ }
    }

    fn set_option(self, builder: SessionBuilder) -> (r: SessionBuilder) {
        let mut builder = builder;
        builder.config.credentials = Some(OwnedCredentials::from(self));
        builder
    }
}

impl<'b> OptionSetter<SessionBuilder> for SuppressedHeader<'b> {
    open spec fn admits(&self, builder: SessionBuilder) -> bool {
        true
    }

    /// Every CONNECT header of the suppressed key is left out.
    open spec fn applied(&self, before: SessionBuilder, after: SessionBuilder) -> bool {
        after@ == SessionConfigView { headers: without_key(before@.headers, self.0@), ..before@ }
    }

    fn set_option(self, builder: SessionBuilder) -> (r: SessionBuilder) {
        let mut builder = builder;
        let SuppressedHeader(key) = self;
        builder.config.headers.remove_key(key);
        builder
    }
}

impl<'a> OptionSetter<MessageBuilder<'a>> for Header {
    open spec fn admits(&self, builder: MessageBuilder<'a>) -> bool {
        true
    }

    /// The header is added to the frame.
    open spec fn applied(&self, before: MessageBuilder<'a>, after: MessageBuilder<'a>) -> bool {
        &&& after.frame@ == FrameView { headers: before.frame@.headers.push(self@), ..before.frame@ }
        &&& after.receipt_request == before.receipt_request
        &&& *after.session == *before.session
    }

    fn set_option(self, builder: MessageBuilder<'a>) -> (r: MessageBuilder<'a>)
        ensures
            *final(r.session) == *final(builder.session),
    {
        let mut builder = builder;
        builder.frame.headers.push(self);
        builder
    }
}

impl<'a, 'b> OptionSetter<MessageBuilder<'b>> for SuppressedHeader<'a> {
    open spec fn admits(&self, builder: MessageBuilder<'b>) -> bool {
        true
    }

    /// Every header of the suppressed key is left out of the frame.
    open spec fn applied(&self, before: MessageBuilder<'b>, after: MessageBuilder<'b>) -> bool {
        &&& after.frame@ == FrameView { headers: without_key(before.frame@.headers, self.0@), ..before.frame@ }
        &&& after.receipt_request == before.receipt_request
        &&& *after.session == *before.session
    }

    fn set_option(self, builder: MessageBuilder<'b>) -> (r: MessageBuilder<'b>)
        ensures
            *final(r.session) == *final(builder.session),
    {
        let mut builder = builder;
        let SuppressedHeader(key) = self;
        builder.frame.headers.remove_key(key);
        builder
    }
}

impl<'a, 'b> OptionSetter<MessageBuilder<'b>> for ContentType<'a> {
    open spec fn admits(&self, builder: MessageBuilder<'b>) -> bool {
        true
    }

    /// A `content-type` header is added to the frame.
    open spec fn applied(&self, before: MessageBuilder<'b>, after: MessageBuilder<'b>) -> bool {
        &&& after.frame@ == FrameView {
            headers: before.frame@.headers.push(("content-type"@, self.0@)),
            ..before.frame@
        }
        &&& after.receipt_request == before.receipt_request
        &&& *after.session == *before.session
    }

    fn set_option(self, builder: MessageBuilder<'b>) -> (r: MessageBuilder<'b>)
        ensures
            *final(r.session) == *final(builder.session),
    {
        let mut builder = builder;
        let ContentType(content_type) = self;
        builder.frame.headers.push(Header::new("content-type", content_type));
        builder
    }
}

impl<'a> OptionSetter<MessageBuilder<'a>> for GenerateReceipt {
    /// A receipt identifier is left to take.
    open spec fn admits(&self, builder: MessageBuilder<'a>) -> bool {
        builder.session@.state.next_receipt_id < u32::MAX
    }

    /// The session's next receipt identifier is taken, asked for in a
    /// `receipt` header, and remembered as the receipt to await.
    open spec fn applied(&self, before: MessageBuilder<'a>, after: MessageBuilder<'a>) -> bool {
        let n = before.session@.state.next_receipt_id;
        &&& after.session@ == (SessionView {
            state: SessionStateView { next_receipt_id: (n + 1) as u32, ..before.session@.state },
            ..before.session@
        })
        &&& after.receipt_request matches Some(r) && r.id@ == receipt_id_text(n)
        &&& after.frame@ == FrameView {
            headers: before.frame@.headers.push(("receipt"@, receipt_id_text(n))),
            ..before.frame@
        }
    }

    fn set_option(self, builder: MessageBuilder<'a>) -> (r: MessageBuilder<'a>)
        ensures
            *final(r.session) == *final(builder.session),
    {
        let mut builder = builder;
        let next_id = builder.session.generate_receipt_id();
        let mut receipt_id = "message/".to_owned();
        push_decimal(&mut receipt_id, next_id as u64);
        builder.receipt_request = Some(ReceiptRequest::new(receipt_id.clone()));
        builder.frame.headers.push(Header::new("receipt", receipt_id.as_str()));
        builder
    }
}

impl<'a> OptionSetter<SubscriptionBuilder<'a>> for Header {
    open spec fn admits(&self, builder: SubscriptionBuilder<'a>) -> bool {
        true
    }

    /// The header is added to the SUBSCRIBE headers.
    open spec fn applied(&self, before: SubscriptionBuilder<'a>, after: SubscriptionBuilder<'a>) -> bool {
        &&& after.headers@ == before.headers@.push(self@)
        &&& after.destination == before.destination
        &&& after.ack_mode == before.ack_mode
        &&& after.receipt_request == before.receipt_request
        &&& *after.session == *before.session
    }

    fn set_option(self, builder: SubscriptionBuilder<'a>) -> (r: SubscriptionBuilder<'a>)
        ensures
            *final(r.session) == *final(builder.session),
    {
        let mut builder = builder;
        builder.headers.push(self);
        builder
    }
}

impl<'a, 'b> OptionSetter<SubscriptionBuilder<'b>> for SuppressedHeader<'a> {
    open spec fn admits(&self, builder: SubscriptionBuilder<'b>) -> bool {
        true
    }

    /// Every extra SUBSCRIBE header of the suppressed key is left out.
    open spec fn applied(&self, before: SubscriptionBuilder<'b>, after: SubscriptionBuilder<'b>) -> bool {
        &&& after.headers@ == without_key(before.headers@, self.0@)
        &&& after.destination == before.destination
        &&& after.ack_mode == before.ack_mode
        &&& after.receipt_request == before.receipt_request
        &&& *after.session == *before.session
    }

    fn set_option(self, builder: SubscriptionBuilder<'b>) -> (r: SubscriptionBuilder<'b>)
        ensures
            *final(r.session) == *final(builder.session),
    {
        let mut builder = builder;
        let SuppressedHeader(key) = self;
        builder.headers.remove_key(key);
        builder
    }
}

impl<'a> OptionSetter<SubscriptionBuilder<'a>> for AckMode {
    open spec fn admits(&self, builder: SubscriptionBuilder<'a>) -> bool {
        true
    }

    /// How messages of the subscription are to be acknowledged.
    open spec fn applied(&self, before: SubscriptionBuilder<'a>, after: SubscriptionBuilder<'a>) -> bool {
        &&& after.ack_mode == *self
        &&& after.headers@ == before.headers@
        &&& after.destination == before.destination
        &&& after.receipt_request == before.receipt_request
        &&& *after.session == *before.session
    }

    fn set_option(self, builder: SubscriptionBuilder<'a>) -> (r: SubscriptionBuilder<'a>)
        ensures
            *final(r.session) == *final(builder.session),
    {
        let mut builder = builder;
        builder.ack_mode = self;
        builder
    }
}

impl<'a> OptionSetter<SubscriptionBuilder<'a>> for GenerateReceipt {
    /// A receipt identifier is left to take.
    open spec fn admits(&self, builder: SubscriptionBuilder<'a>) -> bool {
        builder.session@.state.next_receipt_id < u32::MAX
    }

    /// The session's next receipt identifier is taken, asked for in a
    /// `receipt` header, and remembered as the receipt to await.
    open spec fn applied(&self, before: SubscriptionBuilder<'a>, after: SubscriptionBuilder<'a>) -> bool {
        let n = before.session@.state.next_receipt_id;
        &&& after.session@ == (SessionView {
            state: SessionStateView { next_receipt_id: (n + 1) as u32, ..before.session@.state },
            ..before.session@
        })
        &&& after.receipt_request matches Some(r) && r.id@ == receipt_id_text(n)
        &&& after.headers@ == before.headers@.push(("receipt"@, receipt_id_text(n)))
        &&& after.destination == before.destination
        &&& after.ack_mode == before.ack_mode
    }

    fn set_option(self, builder: SubscriptionBuilder<'a>) -> (r: SubscriptionBuilder<'a>)
        ensures
            *final(r.session) == *final(builder.session),
    {
        let mut builder = builder;
        let next_id = builder.session.generate_receipt_id();
        let mut receipt_id = "message/".to_owned();
        push_decimal(&mut receipt_id, next_id as u64);
        builder.receipt_request = Some(ReceiptRequest::new(receipt_id.clone()));
        builder.headers.push(Header::new("receipt", receipt_id.as_str()));
        builder
    }
}

} // verus!
