//! Core of a peer-to-peer file transfer over UDP: the wire format of the
//! protocol messages, the reliability overlay, and the sender and receiver
//! state machines, each with a machine-checked contract.
//!
//! The library does no input or output. A program around it owns the socket,
//! the timers and the files; it hands the library what arrived and carries
//! out what the library hands back.
//!
//! - [`bitfield`]: the growable bit vector behind deduplication and repair.
//! - [`wire`], [`format`], [`message`]: integers, messages and datagrams.
//! - [`obfuscator`], [`base58`]: the code that the peers exchange.
//! - [`networking`]: the reliability overlay.
//! - [`transmitter`], [`receiver`]: the two ends of a transfer.
//! - [`reassembly`]: what holds between the two ends.

pub mod base58;
pub mod bitfield;
pub mod buffer;
pub mod error;
pub mod format;
pub mod message;
pub mod networking;
pub mod obfuscator;
pub mod reassembly;
pub mod receiver;
pub mod transmitter;
pub mod wire;
