//! A client for a line-oriented publish/subscribe protocol.
//!
//! The library holds the protocol engine: the frame grammar, the receive
//! buffer that reassembles frames from fragments, the encoding of outgoing
//! commands, and the decisions of a session. Socket I/O is left to the caller.

pub mod connect_option;
pub mod frame;
pub mod grammar;
pub mod nats_client;
pub mod receive_buffer;
pub mod server_info;
pub mod session;
