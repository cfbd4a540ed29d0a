//! Representations of errors returned when a single packet is decoded
//! from a slice.

use crate::trace::MalformedModel;
use vstd::prelude::*;

verus! {

/// Why a slice does not begin with a whole, well-formed packet.
#[derive(Debug, Clone, Copy, PartialEq, Eq, Structural)]
pub enum Error {
    /// The header byte asks for what the protocol reserves.
    ReservedHeader {
        /// The header byte.
        byte: u8,
    },
    /// The slice ends in the middle of a packet.
    EofDuringPacket,
    /// The slice is empty.
    EofBeforePacket,
    /// The header is valid, but what follows is not as it announces.
    MalformedPacket {
        /// The header byte.
        header: u8,
    },
}

/// The error that stands for the malformation `m` of a packet with the
/// header byte `header`: a header that cannot begin a packet is
/// reserved, anything else makes the packet malformed.
pub open spec fn spec_error_of(header: u8, m: MalformedModel) -> Error {
    match m {
        MalformedModel::InvalidHeader(_) => Error::ReservedHeader { byte: header },
        MalformedModel::InvalidHardwareDisc { .. } => Error::ReservedHeader { byte: header },
        MalformedModel::InvalidSourcePayload { .. } => Error::ReservedHeader { byte: header },
        _ => Error::MalformedPacket { header },
    }
}

} // verus!
