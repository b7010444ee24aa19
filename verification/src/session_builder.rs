//! What a session is set up with before it connects.
use vstd::prelude::*;
use crate::connection::{HeartBeat, OwnedCredentials};
use crate::header::{Header, HeaderList, HeaderView};
use crate::option_setter::OptionSetter;

verus! {

/// A session's settings as the protocol sees them.
pub struct SessionConfigView {
    pub host: Seq<char>,
    pub port: u16,
    pub credentials: Option<(Seq<char>, Seq<char>)>,
    pub heartbeat: HeartBeat,
    pub headers: Seq<HeaderView>,
}

/// Where to connect, as whom, with which heart-beats, and which headers the
/// CONNECT frame carries.
pub struct SessionConfig {
    pub host: String,
    pub port: u16,
    pub credentials: Option<OwnedCredentials>,
    pub heartbeat: HeartBeat,
    pub headers: HeaderList,
}

/// The login and passcode of optional credentials.
pub open spec fn credentials_view(c: Option<OwnedCredentials>) -> Option<(Seq<char>, Seq<char>)> {
    match c {
        Some(c) => Some((c.login@, c.passcode@)),
        None => None,
    }
}

impl View for SessionConfig {
    type V = SessionConfigView;

    open spec fn view(&self) -> SessionConfigView {
        SessionConfigView {
            host: self.host@,
            port: self.port,
            credentials: credentials_view(self.credentials),
            heartbeat: self.heartbeat,
            headers: self.headers@,
        }
    }
}

impl Clone for SessionConfig {
    fn clone(&self) -> (r: Self)
        ensures
            r@ == self@,
    {
        let credentials = match &self.credentials {
            Some(c) => Some(c.clone()),
            None => None,
        };
        SessionConfig {
            host: self.host.clone(),
            port: self.port,
            credentials,
            heartbeat: self.heartbeat,
            headers: self.headers.clone(),
        }
    }
}

/// Collects the settings of a session.
pub struct SessionBuilder {
    pub config: SessionConfig,
}

impl View for SessionBuilder {
    type V = SessionConfigView;

    open spec fn view(&self) -> SessionConfigView {
        self.config@
    }
}

/// The headers every CONNECT frame starts with: the virtual host, the
/// protocol version, and an empty body.
pub open spec fn initial_headers(host: Seq<char>) -> Seq<HeaderView> {
    seq![("host"@, host), ("accept-version"@, "1.2"@), ("content-length"@, "0"@)]
}

impl SessionBuilder {
    /// Settings for a session with `host` on `port`: no credentials, no
    /// heart-beats, and the initial CONNECT headers.
    pub fn new(host: &str, port: u16) -> (b: SessionBuilder)
        ensures
            b@ == (SessionConfigView {
                host: host@,
                port,
                credentials: None,
                heartbeat: HeartBeat(0, 0),
                headers: initial_headers(host@),
            }),
    {
        let mut headers = HeaderList::new();
        headers.push(Header::new("host", host));
        headers.push(Header::new("accept-version", "1.2"));
        headers.push(Header::new("content-length", "0"));
        let config = SessionConfig {
            host: host.to_owned(),
            port,
            credentials: None,
            heartbeat: HeartBeat(0, 0),
            headers,
        };
        let b = SessionBuilder { config };
        assert(b.config.headers@ =~= initial_headers(host@));
        b
    }

    /// Applies one option to the settings.
    pub fn with<O: OptionSetter<SessionBuilder>>(self, option_setter: O) -> (b: SessionBuilder)
        requires
            option_setter.admits(self),
        ensures
            option_setter.applied(self, b),
    {
        option_setter.set_option(self)
    }
}

} // verus!
