//! Protocol sniffer for the Minecraft handshake.
//!
//! A freshly accepted connection's first packet carries the virtual host the
//! client typed in: a length byte at offset 4 gives the length of the
//! address field that follows. A mod-loader marker sequence immediately
//! after the address field shifts the field's boundary by one variant: the
//! marked (Forge) layout excludes the marker region from the address slice,
//! the plain (Vanilla) layout includes the five-byte prefix in its length.

use vstd::prelude::*;
use vstd::slice::{slice_index_get, slice_subrange, slice_to_vec};
use vstd::utf8::{decode_utf8, valid_utf8};

use crate::connection::NewConnection;

verus! {

/// The Minecraft loader flavors the sniffer can tell apart from the first
/// packet's layout.
#[derive(Clone, Copy, PartialEq, Eq, Structural, Debug)]
pub enum McLoaders {
    Unknown,
    Vanilla,
    Forge,
}

/// Why classification of a first packet failed.
#[derive(Clone, Copy, PartialEq, Eq, Structural, Debug)]
pub enum SniffError {
    /// The packet is too short, its declared address length runs past the
    /// buffer, or no recognized loader layout matches.
    MalformedHandshake,
    /// The address field is not valid UTF-8 text.
    InvalidAddressEncoding,
}

/// The declared length of the address region: the byte at offset 4.
pub open spec fn addr_len(p: Seq<u8>) -> int
    recommends
        p.len() >= 5,
{
    p[4] as int
}

/// Whether the mod-loader marker bytes stand immediately after the address
/// field. The three byte values are kept exactly as the protocol's clients
/// send them; they do not spell the loader's ASCII name.
pub open spec fn has_forge_marker(p: Seq<u8>) -> bool {
    &&& p.len() >= 5
    &&& addr_len(p) + 3 <= p.len()
    &&& p[addr_len(p)] == 0x70u8
    &&& p[addr_len(p) + 1] == 0x77u8
    &&& p[addr_len(p) + 2] == 0x76u8
}

/// Which loader layout a first packet matches. Packets too short to hold
/// the length byte are unclassifiable; the marked layout wins over the
/// plain one, which is the fallback for every other packet.
pub open spec fn spec_loader(p: Seq<u8>) -> McLoaders {
    if p.len() < 5 {
        McLoaders::Unknown
    } else if has_forge_marker(p) {
        McLoaders::Forge
    } else {
        McLoaders::Vanilla
    }
}

/// Whether the packet's declared address field lies fully inside the buffer
/// for the layout it matches, so an address can be extracted at all.
pub open spec fn sniffable(p: Seq<u8>) -> bool {
    &&& p.len() >= 5
    &&& if has_forge_marker(p) {
        5 <= addr_len(p)
    } else {
        addr_len(p) + 5 <= p.len()
    }
}

/// The raw bytes of the address field: the marked layout reads up to the
/// declared length, the plain layout reads the declared length of bytes
/// after the five-byte prefix.
pub open spec fn address_bytes(p: Seq<u8>) -> Seq<u8>
    recommends
        sniffable(p),
{
    if has_forge_marker(p) {
        p.subrange(5, addr_len(p))
    } else {
        p.subrange(5, addr_len(p) + 5)
    }
}

/// The game protocol this proxy speaks; its handshake classification.
pub struct Minecraft;

impl Minecraft {
    /// Tell the loader flavor from the first packet's layout.
    pub fn determine_loader(packet: &[u8]) -> (loader: McLoaders)
        ensures
            loader == spec_loader(packet@),
    {
        if packet.len() < 5 {
            return McLoaders::Unknown;
        }
        let l: usize = *slice_index_get(packet, 4) as usize;
        if l + 3 <= packet.len() {
            let b0: u8 = *slice_index_get(packet, l);
            let b1: u8 = *slice_index_get(packet, l + 1);
            let b2: u8 = *slice_index_get(packet, l + 2);
            if b0 == 0x70 && b1 == 0x77 && b2 == 0x76 {
                return McLoaders::Forge;
            }
        }
        McLoaders::Vanilla
    }

    /// Classify a connection's first packet: extract the requested virtual
    /// host and keep every byte read, to be replayed to the backend.
    ///
    /// Succeeds exactly on packets whose address field fits the buffer and
    /// decodes as UTF-8; the two failure kinds are told apart so an
    /// operator can tell a foreign protocol from a corrupt address.
    pub fn classify_packet(packet: &[u8]) -> (r: Result<NewConnection, SniffError>)
        ensures
            match r {
                Ok(c) => {
                    &&& sniffable(packet@)
                    &&& valid_utf8(address_bytes(packet@))
                    &&& c.target_address@ == decode_utf8(address_bytes(packet@))
                    &&& c.first_packet@ == packet@
                },
                Err(SniffError::MalformedHandshake) => !sniffable(packet@),
                Err(SniffError::InvalidAddressEncoding) => {
                    &&& sniffable(packet@)
                    &&& !valid_utf8(address_bytes(packet@))
                },
            },
    {
        let loader = Self::determine_loader(packet);
        let address_segment: &[u8] = match loader {
            McLoaders::Unknown => {
                return Err(SniffError::MalformedHandshake);
            },
            McLoaders::Forge => {
                let l: usize = *slice_index_get(packet, 4) as usize;
                if l < 5 {
                    return Err(SniffError::MalformedHandshake);
                }
                slice_subrange(packet, 5, l)
            },
            McLoaders::Vanilla => {
                let l: usize = *slice_index_get(packet, 4) as usize;
                if l + 5 > packet.len() {
                    return Err(SniffError::MalformedHandshake);
                }
                slice_subrange(packet, 5, l + 5)
            },
        };
        let address_vec: Vec<u8> = slice_to_vec(address_segment);
        match string_from_utf8(address_vec) {
            Some(target_host) => Ok(
                NewConnection {
                    target_address: target_host,
                    first_packet: slice_to_vec(packet),
                },
            ),
            None => Err(SniffError::InvalidAddressEncoding),
        }
    }
}

/// An address field of plain ASCII bytes is valid UTF-8 and decodes to
/// exactly those bytes, character for character — so for such packets the
/// sniffer returns the address text verbatim.
pub proof fn lemma_ascii_address_decodes_to_itself(bytes: Seq<u8>)
    requires
        forall|i: int| 0 <= i < bytes.len() ==> bytes[i] < 0x80,
    ensures
        valid_utf8(bytes),
        decode_utf8(bytes).len() == bytes.len(),
        forall|i: int| 0 <= i < bytes.len() ==> decode_utf8(bytes)[i] as u32 == bytes[i] as u32,
    decreases bytes.len(),
{
    if bytes.len() == 0 {
    } else {
        let b0 = bytes[0];
        assert(b0 & 0x7F == b0) by (bit_vector)
            requires
                b0 < 0x80,
        ;
        assert(vstd::utf8::valid_first_scalar(bytes));
        assert(vstd::utf8::pop_first_scalar(bytes) =~= bytes.skip(1));
        lemma_ascii_address_decodes_to_itself(bytes.skip(1));
        assert(decode_utf8(bytes) == seq![
            vstd::utf8::decode_first_scalar(bytes) as char,
        ] + decode_utf8(bytes.skip(1)));
        assert forall|i: int| 0 <= i < bytes.len() implies decode_utf8(bytes)[i] as u32 == bytes[i]
            as u32 by {
            if i > 0 {
                assert(decode_utf8(bytes)[i] == decode_utf8(bytes.skip(1))[i - 1]);
                assert(bytes.skip(1)[i - 1] == bytes[i]);
            }
        }
    }
}

/// Relies on String::from_utf8: returns the decoded string exactly when the
/// bytes are valid UTF-8, and refuses them otherwise.
#[verifier::external_body]
fn string_from_utf8(bytes: Vec<u8>) -> (r: Option<String>)
    ensures
        match r {
            Some(s) => valid_utf8(bytes@) && s@ == decode_utf8(bytes@),
            None => !valid_utf8(bytes@),
        },
{
    String::from_utf8(bytes).ok()
}

} // verus!
