//! Core logic of two event-pipeline ingestion sources.
//!
//! The `exec` source spawns an external command, frames its standard output
//! (and optionally standard error) into log events, and forwards them
//! downstream under a shutdown discipline.  The `tcp` source accepts inbound
//! connections, frames each connection's byte stream, lifts frames into
//! events, and acknowledges each frame back to the peer.
//!
//! This crate holds the decision and data logic of those sources: framing
//! codecs, configuration validation, event construction, listen-address
//! parsing, and the supervisor and per-connection state machines.  The
//! asynchronous I/O that drives them lives outside the library.

pub mod codec;
pub mod config;
pub mod event;
pub mod exec;
pub mod tcp;
