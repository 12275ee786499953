//! The decision core of a UDP port forwarder.
//!
//! A forwarder accepts datagrams on a local port, relays them to one upstream
//! endpoint, and relays what the upstream endpoint answers back to the peer
//! that asked. Several forwarders run side by side under one supervisor.
//!
//! This crate holds the decisions and none of the sockets. Its caller binds
//! the ports, reads the clock, and tells the library what happened; the
//! library answers with what to send and with where the run stands.
//!
//! - [`address`]: IP addresses and socket addresses as plain values.
//! - [`config`]: what a forwarder is started with, and the fixed set of
//!   listeners.
//! - [`session`]: the table of peers that a forwarder has heard from.
//! - [`forwarder`]: the relay itself, one datagram at a time.
//! - [`supervisor`]: the check of the configurations and the outcome of the
//!   run.
//! - [`laws`]: what holds of every forwarder and of every run.

pub mod address;
pub mod config;
pub mod forwarder;
pub mod laws;
pub mod session;
pub mod supervisor;
