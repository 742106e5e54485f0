//! Control library for a networked smart light bulb speaking a
//! line-delimited JSON-RPC protocol over one persistent TCP stream.
//!
//! The library holds the protocol core: validated parameter values,
//! command framing with per-connection correlation ids, response
//! decoding tolerant of foreign or malformed lines, and the wake-up
//! alarm state machine with its saved-state capture and restoration.
//! Socket and HTTP plumbing live outside; they hand plain values in
//! and take plain values back.

pub mod alarm;
pub mod bulb;
pub mod codec;
pub mod command;
pub mod connection;
pub mod handlers;
pub mod params;
pub mod response;
