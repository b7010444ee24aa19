//! Subscriptions: what a client listens to, and how it acknowledges what it
//! receives.
use vstd::prelude::*;
use crate::header::{HeaderList, HeaderView};
use crate::text::{decimal, push_decimal};

verus! {

/// How the server expects messages of a subscription to be acknowledged.
#[derive(Clone, Copy, Debug, PartialEq, Eq, Structural)]
pub enum AckMode {
    Auto,
    Client,
    ClientIndividual,
}

/// The value of the `ack` header that asks for an acknowledgement mode.
pub open spec fn ack_mode_text(mode: AckMode) -> Seq<char> {
    match mode {
        AckMode::Auto => "auto"@,
        AckMode::Client => "client"@,
        AckMode::ClientIndividual => "client-individual"@,
    }
}

impl AckMode {
    pub fn as_text(&self) -> (s: &'static str)
        ensures
            s@ == ack_mode_text(*self),
    {
        match self {
            AckMode::Auto => "auto",
            AckMode::Client => "client",
            AckMode::ClientIndividual => "client-individual",
        }
    }
}

/// Whether a message is acknowledged or refused.
#[derive(Clone, Copy, Debug, PartialEq, Eq, Structural)]
pub enum AckOrNack {
    Ack,
    Nack,
}

/// The identifier a session gives its `n`th subscription.
pub open spec fn subscription_id_text(n: u32) -> Seq<char> {
    "stomp-rs/"@ + decimal(n as nat)
}

/// A subscription as the protocol sees it.
pub struct SubscriptionView {
    pub id: Seq<char>,
    pub destination: Seq<char>,
    pub ack_mode: AckMode,
    pub headers: Seq<HeaderView>,
}

/// A destination the session listens to, under an identifier of its own.
pub struct Subscription {
    pub id: String,
    pub destination: String,
    pub ack_mode: AckMode,
    pub headers: HeaderList,
}

impl View for Subscription {
    type V = SubscriptionView;

    open spec fn view(&self) -> SubscriptionView {
        SubscriptionView {
            id: self.id@,
            destination: self.destination@,
            ack_mode: self.ack_mode,
            headers: self.headers@,
        }
    }
}

impl Subscription {
    pub fn new(id: u32, destination: &str, ack_mode: AckMode, headers: HeaderList) -> (s: Subscription)
        ensures
            s.id@ == subscription_id_text(id),
            s.destination@ == destination@,
            s.ack_mode == ack_mode,
            s.headers@ == headers@,
    {
        let mut text = "stomp-rs/".to_owned();
        push_decimal(&mut text, id as u64);
        Subscription { id: text, destination: destination.to_owned(), ack_mode, headers }
    }
}

} // verus!
