//! The result of classifying a freshly accepted connection.

use vstd::prelude::*;

verus! {

/// What the protocol sniffer learned from a connection's first packet: the
/// virtual host the client asked for, and every byte already read off the
/// wire, which must be replayed verbatim to the backend.
#[derive(Debug)]
pub struct NewConnection {
    pub target_address: String,
    pub first_packet: Vec<u8>,
}

} // verus!
