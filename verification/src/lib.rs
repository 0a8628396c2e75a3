//! A client-side codec for the CQL native wire protocol.
//!
//! Requests are encoded into framed byte sequences and framed byte responses
//! are decoded back into typed results.  Every encoder and decoder carries a
//! contract that ties the executable code to a byte-level specification of
//! the wire format, and the round-trip laws between them are proved.

pub mod bytes;
pub mod laws;
pub mod shared;
pub mod reading;
pub mod writing;

use vstd::prelude::*;

verus! {

/// Protocol version sent in every request frame header.
pub const CQL_BINARY_PROTOCOL_VERSION: u8 = 0x04;

} // verus!
