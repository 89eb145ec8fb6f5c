//! Peer rendezvous over UDP multicast.
//!
//! A client advertises the TCP port it listens on in a heartbeat datagram
//! sent to a multicast group. A server that hears a well-formed heartbeat
//! connects back to the advertiser, and the two carry on over that stream.
//!
//! This crate holds the decisions of both sides: the wire format of the
//! heartbeat, the fixed-delay retry rule, and the state machines of the
//! client and of the server. Each machine takes the outcome of the last
//! operation and answers with the next operation to perform; sockets,
//! timers and tasks belong to the program that drives it.

pub mod client;
pub mod endpoint;
pub mod retry;
pub mod server;
pub mod wire;
