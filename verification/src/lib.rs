//! Run engine for executing untrusted code in transient Docker containers.
//!
//! The crate drives one Docker run lifecycle over the Docker Engine HTTP API
//! on a local stream socket: a minimal HTTP/1.1 client, the Docker API
//! request layer, the attach-stream demultiplexer, and the run orchestrator.

pub mod api;
pub mod config;
pub mod debug;
pub mod docker;
pub mod environment;
pub mod http_extra;
pub mod json_text;
pub mod numeric;
pub mod run;
pub mod scripted;
pub mod unix_stream;

use vstd::prelude::*;

verus! {

/// Big-endian interpretation of four bytes, as used by the attach-stream
/// frame header.
pub open spec fn be32(b0: u8, b1: u8, b2: u8, b3: u8) -> nat {
    (b0 as nat) * 0x1000000 + (b1 as nat) * 0x10000 + (b2 as nat) * 0x100 + (b3 as nat)
}

/// Reads a big-endian 32-bit length from four bytes.
pub fn read_be32(b0: u8, b1: u8, b2: u8, b3: u8) -> (r: u32)
    ensures
        r as nat == be32(b0, b1, b2, b3),
{
    (b0 as u32) * 0x1000000 + (b1 as u32) * 0x10000 + (b2 as u32) * 0x100 + (b3 as u32)
}

} // verus!
