//! Core of a minimal two-channel file-transfer service.
//!
//! A client/server pair exchanges commands over a reliable control
//! channel and ships file payload over a lossy datagram channel,
//! recovering reliability with a bounded retry scheme. This crate
//! holds the protocol itself — the fixed-size wire codec, the
//! chunking of file content, the transfer engines with their
//! retry/abort policy, and the session decisions of both endpoints —
//! verified; the sockets, files and console around it live with the
//! caller.

pub mod chunks;
pub mod codec;
pub mod engine;
pub mod packet;
pub mod proto;
pub mod session;
