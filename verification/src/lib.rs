//! Connection and protocol core of a terminal-multiplexer client: the message
//! schema, its binary wire codec, the daemon rendezvous state machine and the
//! two halves of the duplex session.

pub mod message;
pub mod wire;
pub mod layout;
pub mod codec;
pub mod frame;
pub mod bootstrap;
pub mod inbound;
pub mod outbound;
pub mod deferred;
