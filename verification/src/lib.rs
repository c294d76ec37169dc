//! A TCP forwarder that stamps every relayed connection with a PROXY protocol
//! (version 1) header line.
//!
//! The crate holds the decisions of the forwarder: how a forwarding rule is
//! read and matched to a pair of addresses, which header line a connection is
//! given, how bytes are relayed in both directions, and how a listener is
//! started and stopped. Sockets, threads and the event loop belong to the
//! program that drives these decisions.

pub mod address;
pub mod connection;
pub mod error;
pub mod fields;
pub mod header;
pub mod listener;
pub mod negotiator;
pub mod relay;
pub mod resolver;
pub mod shutdown;
pub mod text;

