//! A client for the STOMP messaging protocol: frames, headers, heart-beat
//! negotiation and the session state machine that drives a connection.
pub mod codec;
pub mod connection;
pub mod frame;
pub mod header;
pub mod keyed;
pub mod laws;
pub mod message_builder;
pub mod option_setter;
pub mod session;
pub mod session_builder;
pub mod subscription;
pub mod subscription_builder;
pub mod text;
pub mod transaction;
