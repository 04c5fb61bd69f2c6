//! Port relay core: the rules of a TCP/UDP port forwarder, stated and proved.
//!
//! A configuration names mappings, one per line. Each mapping is run by a
//! supervisor, which restarts its engine after every failure. The TCP engine
//! queues accepted clients and forwards each to the destination; the UDP
//! session relays between the destination and the one client it has learned.
//! All of them decide only: the sockets, the clock and the log belong to the
//! caller, which reports events and performs the actions it is handed.

pub mod address;
pub mod config;
pub mod error;
pub mod forward;
pub mod pending;
pub mod protocol;
pub mod supervisor;
pub mod tcp;
pub mod text;
pub mod udp;
