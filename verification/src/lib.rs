//! Framing layer for a block-chain gossip protocol: typed message payloads
//! are serialized into the exact byte sequence required on the wire, and
//! received byte sequences are parsed back into typed payloads.

pub mod checksum;
pub mod codec;
pub mod laws;
pub mod message;
