//! What a connection agrees on before frames flow: the login and the
//! heart-beat intervals.
use vstd::prelude::*;

verus! {

/// Heart-beat intervals in milliseconds: how often one side can send
/// (first) and how often it wants to receive (second); 0 means never.
#[derive(Clone, Copy, Debug, PartialEq, Eq, Structural)]
pub struct HeartBeat(pub u32, pub u32);

/// A login and passcode, borrowed.
#[derive(Clone, Copy)]
pub struct Credentials<'a>(pub &'a str, pub &'a str);

/// A login and passcode, owned.
pub struct OwnedCredentials {
    pub login: String,
    pub passcode: String,
}

impl Clone for OwnedCredentials {
    fn clone(&self) -> (r: Self)
        ensures
            r.login@ == self.login@,
            r.passcode@ == self.passcode@,
    {
        OwnedCredentials { login: self.login.clone(), passcode: self.passcode.clone() }
    }
}

impl OwnedCredentials {
    pub fn from(credentials: Credentials<'_>) -> (r: OwnedCredentials)
        ensures
            r.login@ == credentials.0@,
            r.passcode@ == credentials.1@,
    {
        OwnedCredentials { login: credentials.0.to_owned(), passcode: credentials.1.to_owned() }
    }
}

/// The interval at which one side sends heart-beats to the other, given how
/// often the sender can send and how often the receiver wants to hear: never
/// where either says 0, else the larger of the two.
pub open spec fn agreed_interval(can_send: u32, wants: u32) -> u32 {
    if can_send == 0 || wants == 0 {
        0
    } else if can_send >= wants {
        can_send
    } else {
        wants
    }
}

/// The intervals one side of a connection uses, given what it asked for
/// (`own_tx_ms`, `own_rx_ms`) and what the other side asked for: (how often
/// it sends, how often it expects to hear from the other side).
pub open spec fn selected(own_tx_ms: u32, own_rx_ms: u32, other_tx_ms: u32, other_rx_ms: u32) -> (u32, u32) {
    (agreed_interval(own_tx_ms, other_rx_ms), agreed_interval(other_tx_ms, own_rx_ms))
}

/// The heart-beat intervals a client uses once the server has answered:
/// (how often the client sends, how often it expects to hear from the
/// server).
pub fn select_heartbeat(client_tx_ms: u32, client_rx_ms: u32, server_tx_ms: u32, server_rx_ms: u32) -> (r: (u32, u32))
    ensures
        r == selected(client_tx_ms, client_rx_ms, server_tx_ms, server_rx_ms),
{
    let heartbeat_tx_ms: u32 = if client_tx_ms == 0 || server_rx_ms == 0 {
        0
    } else if client_tx_ms >= server_rx_ms {
        client_tx_ms
    } else {
        server_rx_ms
    };
    let heartbeat_rx_ms: u32 = if client_rx_ms == 0 || server_tx_ms == 0 {
        0
    } else if client_rx_ms >= server_tx_ms {
        client_rx_ms
    } else {
        server_tx_ms
    };
    (heartbeat_tx_ms, heartbeat_rx_ms)
}

/// Both ends of a connection agree: the interval at which the client sends
/// is the one at which the server, selecting with the roles swapped, expects
/// to hear from it, and the other way round.
pub proof fn lemma_select_heartbeat_agrees(client_tx_ms: u32, client_rx_ms: u32, server_tx_ms: u32, server_rx_ms: u32)
    ensures
        selected(client_tx_ms, client_rx_ms, server_tx_ms, server_rx_ms).0
            == selected(server_tx_ms, server_rx_ms, client_tx_ms, client_rx_ms).1,
        selected(client_tx_ms, client_rx_ms, server_tx_ms, server_rx_ms).1
            == selected(server_tx_ms, server_rx_ms, client_tx_ms, client_rx_ms).0,
{
}

/// An agreed interval is 0 exactly where one side declines; otherwise it is
/// the larger of the two requests, so neither side hears or is heard more
/// often than it asked.
pub proof fn lemma_agreed_interval_bounds(can_send: u32, wants: u32)
    ensures
        agreed_interval(can_send, wants) == 0 <==> (can_send == 0 || wants == 0),
        agreed_interval(can_send, wants) != 0 ==> agreed_interval(can_send, wants) >= can_send
            && agreed_interval(can_send, wants) >= wants
            && (agreed_interval(can_send, wants) == can_send || agreed_interval(can_send, wants) == wants),
{
}

} // verus!
