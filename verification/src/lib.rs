//! A store-and-forward transport core for multi-hop, address-routed
//! messaging, together with the in-memory queue and topic workers that sit
//! behind it.
//!
//! Each message carries its remaining hops (the onward route, head first) and
//! the hops already traversed (the return route, most recent first).  A
//! [`connection::Connection`] rewrites those routes — consuming the next hop
//! on send, prepending its own address for replies, and NAT-correcting the
//! return head on receive — while [`codec`] turns messages into frames and
//! back, with a proved lossless round trip.  The [`manager::TcpManager`]
//! keys one connection per peer address, processes commands strictly first
//! in, first out, and isolates a failing connection instead of stopping the
//! loop.  Sockets, channels and every other effect stay outside this crate's
//! verified code and act on the values these state machines return.

pub mod codec;
pub mod connection;
pub mod error;
pub mod manager;
pub mod message;
pub mod pubsub;
pub mod queue;
pub mod route;
pub mod topic;
