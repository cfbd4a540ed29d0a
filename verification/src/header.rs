//! Decoding of the first byte of a packet.
//!
//! | Pattern       | Meaning                                  |
//! |---------------|------------------------------------------|
//! | `0000_0000`   | start of a synchronization packet        |
//! | `0111_0000`   | overflow                                 |
//! | `11rr_0000`   | local timestamp, format 1                |
//! | `0ttt_0000`   | local timestamp, format 2                |
//! | `1001_0100`   | global timestamp, format 1               |
//! | `1011_0100`   | global timestamp, format 2               |
//! | `0ppp_1000`   | extension (stimulus port page)           |
//! | `aaaa_a0ss`   | instrumentation                          |
//! | `aaaa_a1ss`   | hardware source                          |
//!
//! The first pattern that matches decides.

use crate::trace::{MalformedModel, MalformedPacket, PacketModel, TimestampDataRelation, TracePacket};
use vstd::prelude::*;

verus! {

/// The size of the payload of a source packet (Appendix D4.2.8, Table D4-4).
#[derive(Debug, Clone, Copy, PartialEq, Eq, Structural)]
pub enum PayloadSize {
    /// One byte; the size field is `01`.
    Byte,
    /// Two bytes; the size field is `10`.
    Halfword,
    /// Four bytes; the size field is `11`.
    Word,
}

impl PayloadSize {
    /// The number of payload bytes.
    pub open spec fn spec_bytes(self) -> nat {
        match self {
            PayloadSize::Byte => 1,
            PayloadSize::Halfword => 2,
            PayloadSize::Word => 4,
        }
    }

    /// The number of payload bytes.
    pub fn bytes(self) -> (n: usize)
        ensures
            n == self.spec_bytes(),
    {
        match self {
            PayloadSize::Byte => 1,
            PayloadSize::Halfword => 2,
            PayloadSize::Word => 4,
        }
    }
}

/// What a header announces when the packet is not complete with it: how
/// the rest of the packet is to be consumed.
#[derive(Debug, Clone, Copy, PartialEq, Eq, Structural)]
pub enum PacketStub {
    /// Zero bits follow until a set bit closes the synchronization
    /// packet; so many zero bits were seen already.
    Sync(usize),
    /// The payload of an instrumentation packet follows.
    Instrumentation { port: u8, expected_size: PayloadSize },
    /// The payload of a hardware source packet follows.
    HardwareSource { disc_id: u8, expected_size: PayloadSize },
    /// The payload of a local timestamp follows, up to the first byte
    /// without continuation bit.
    LocalTimestamp { data_relation: TimestampDataRelation },
    /// The payload of a global timestamp of format 1 follows.
    GlobalTimestamp1,
    /// The payload of a global timestamp of format 2 follows.
    GlobalTimestamp2,
}

impl PacketStub {
    /// What holds of every stub that a header leaves: the port is one
    /// of the 32 stimulus ports, the discriminator one that a hardware
    /// source packet can carry.
    pub open spec fn wf(self) -> bool {
        match self {
            PacketStub::Instrumentation { port, .. } => port <= 31,
            PacketStub::HardwareSource { disc_id, .. } => valid_disc_id(disc_id),
            _ => true,
        }
    }
}

/// The outcome of decoding a valid header.
#[derive(Debug, Clone, PartialEq)]
pub enum HeaderVariant {
    /// The header is the whole packet.
    Packet(TracePacket),
    /// More of the packet follows.
    Stub(PacketStub),
}

/// A [`HeaderVariant`] as a mathematical value.
pub ghost enum HeaderModel {
    Packet(PacketModel),
    Stub(PacketStub),
}

impl View for HeaderVariant {
    type V = HeaderModel;

    open spec fn view(&self) -> HeaderModel {
        match *self {
            HeaderVariant::Packet(p) => HeaderModel::Packet(p@),
            HeaderVariant::Stub(s) => HeaderModel::Stub(s),
        }
    }
}

/// The payload size that the size field `ss` of a source packet header
/// asks for (Appendix D4.2.8, Table D4-4).
pub open spec fn spec_payload_size(ss: u8) -> Option<PayloadSize> {
    if ss == 0b01 {
        Some(PayloadSize::Byte)
    } else if ss == 0b10 {
        Some(PayloadSize::Halfword)
    } else if ss == 0b11 {
        Some(PayloadSize::Word)
    } else {
        None
    }
}

/// The meaning of the field `tc` of a local timestamp header.
pub open spec fn spec_data_relation(tc: u8) -> TimestampDataRelation {
    if tc == 0 {
        TimestampDataRelation::Sync
    } else if tc == 1 {
        TimestampDataRelation::UnknownDelay
    } else if tc == 2 {
        TimestampDataRelation::AssocEventDelay
    } else {
        TimestampDataRelation::UnknownAssocEventDelay
    }
}

/// Whether `disc_id` is a discriminator that a hardware source packet
/// can carry.
pub open spec fn valid_disc_id(disc_id: u8) -> bool {
    disc_id <= 2 || (8 <= disc_id && disc_id <= 23)
}

/// What a header byte means: the pattern table of this module.
pub open spec fn spec_decode_header(header: u8) -> Result<HeaderModel, MalformedModel> {
    if header == 0b0000_0000 {
        Ok(HeaderModel::Stub(PacketStub::Sync(8)))
    } else if header == 0b0111_0000 {
        Ok(HeaderModel::Packet(PacketModel::Overflow))
    } else if header & 0b1100_1111 == 0b1100_0000 {
        Ok(
            HeaderModel::Stub(
                PacketStub::LocalTimestamp {
                    data_relation: spec_data_relation((header >> 4) & 0b11),
                },
            ),
        )
    } else if header & 0b1000_1111 == 0b0000_0000 {
        Ok(HeaderModel::Packet(PacketModel::LocalTimestamp2 { ts: (header >> 4) & 0b111 }))
    } else if header == 0b1001_0100 {
        Ok(HeaderModel::Stub(PacketStub::GlobalTimestamp1))
    } else if header == 0b1011_0100 {
        Ok(HeaderModel::Stub(PacketStub::GlobalTimestamp2))
    } else if header & 0b1000_1111 == 0b0000_1000 {
        Ok(HeaderModel::Packet(PacketModel::Extension { page: (header >> 4) & 0b111 }))
    } else if header & 0b0000_0100 == 0 {
        match spec_payload_size(header & 0b11) {
            Some(expected_size) => Ok(
                HeaderModel::Stub(PacketStub::Instrumentation { port: header >> 3, expected_size }),
            ),
            None => Err(MalformedModel::InvalidSourcePayload { header, size: header & 0b11 }),
        }
    } else if !valid_disc_id(header >> 3) {
        Err(
            MalformedModel::InvalidHardwareDisc {
                disc_id: header >> 3,
                size: (header & 0b11) as usize,
            },
        )
    } else {
        match spec_payload_size(header & 0b11) {
            Some(expected_size) => Ok(
                HeaderModel::Stub(
                    PacketStub::HardwareSource { disc_id: header >> 3, expected_size },
                ),
            ),
            None => Err(MalformedModel::InvalidSourcePayload { header, size: header & 0b11 }),
        }
    }
}

proof fn lemma_header_fields(header: u8)
    by (bit_vector)
    ensures
        header >> 3 <= 31,
        (header >> 4) & 0b111 <= 7,
        header & 0b1000_1111 == 0 && header != 0 && header != 0b0111_0000 ==> 1 <= (header >> 4)
            & 0b111 <= 6,
{
}

/// What a header leaves or yields is within the ranges of the protocol,
/// and no byte is an invalid header as such: a byte that begins no
/// packet is a source packet header with a reserved size or
/// discriminator.
pub proof fn lemma_header_wf(header: u8)
    ensures
        spec_decode_header(header) matches Ok(HeaderModel::Stub(stub)) ==> stub.wf(),
        spec_decode_header(header) matches Ok(HeaderModel::Packet(packet)) ==> packet.wf(),
        !(spec_decode_header(header) matches Err(MalformedModel::InvalidHeader(_))),
{
    lemma_header_fields(header);
}

fn payload_size(ss: u8) -> (r: Option<PayloadSize>)
    ensures
        r == spec_payload_size(ss),
{
    match ss {
        0b01 => Some(PayloadSize::Byte),
        0b10 => Some(PayloadSize::Halfword),
        0b11 => Some(PayloadSize::Word),
        _ => None,
    }
}

fn data_relation(tc: u8) -> (r: TimestampDataRelation)
    ensures
        r == spec_data_relation(tc),
{
    match tc {
        0b00 => TimestampDataRelation::Sync,
        0b01 => TimestampDataRelation::UnknownDelay,
        0b10 => TimestampDataRelation::AssocEventDelay,
        _ => TimestampDataRelation::UnknownAssocEventDelay,
    }
}

/// Decodes the first byte of a packet, the header, into a complete
/// packet or a packet stub.
pub fn decode_header(header: u8) -> (r: Result<HeaderVariant, MalformedPacket>)
    ensures
        header_result_view(r) == spec_decode_header(header),
        r matches Ok(HeaderVariant::Stub(stub)) ==> stub.wf(),
        r matches Ok(HeaderVariant::Packet(packet)) ==> packet@.wf(),
{
    proof {
        lemma_header_wf(header);
    }
    if header == 0b0000_0000 {
        // Synchronization packet category
        Ok(HeaderVariant::Stub(PacketStub::Sync(8)))
    } else if header == 0b0111_0000 {
        // Protocol packet category
        Ok(HeaderVariant::Packet(TracePacket::Overflow))
    } else if header & 0b1100_1111 == 0b1100_0000 {
        // Local timestamp, format 1 (LTS1)
        let tc = (header >> 4) & 0b11;
        Ok(HeaderVariant::Stub(PacketStub::LocalTimestamp { data_relation: data_relation(tc) }))
    } else if header & 0b1000_1111 == 0b0000_0000 {
        // Local timestamp, format 2 (LTS2)
        Ok(HeaderVariant::Packet(TracePacket::LocalTimestamp2 { ts: (header >> 4) & 0b111 }))
    } else if header == 0b1001_0100 {
        // Global timestamp, format 1 (GTS1)
        Ok(HeaderVariant::Stub(PacketStub::GlobalTimestamp1))
    } else if header == 0b1011_0100 {
        // Global timestamp, format 2 (GTS2)
        Ok(HeaderVariant::Stub(PacketStub::GlobalTimestamp2))
    } else if header & 0b1000_1111 == 0b0000_1000 {
        // Extension packet
        Ok(HeaderVariant::Packet(TracePacket::Extension { page: (header >> 4) & 0b111 }))
    } else if header & 0b0000_0100 == 0 {
        // Source packet category: instrumentation packet
        let ss = header & 0b11;
        match payload_size(ss) {
            Some(expected_size) => Ok(
                HeaderVariant::Stub(PacketStub::Instrumentation { port: header >> 3, expected_size }),
            ),
            None => Err(MalformedPacket::InvalidSourcePayload { header, size: ss }),
        }
    } else {
        // Source packet category: hardware source packet
        let disc_id = header >> 3;
        let ss = header & 0b11;
        if !(disc_id <= 2 || (8 <= disc_id && disc_id <= 23)) {
            return Err(MalformedPacket::InvalidHardwareDisc { disc_id, size: ss as usize });
        }
        match payload_size(ss) {
            Some(expected_size) => Ok(
                HeaderVariant::Stub(PacketStub::HardwareSource { disc_id, expected_size }),
            ),
            None => Err(MalformedPacket::InvalidSourcePayload { header, size: ss }),
        }
    }
}

/// The view of a header decoding result.
pub open spec fn header_result_view(r: Result<HeaderVariant, MalformedPacket>) -> Result<
    HeaderModel,
    MalformedModel,
> {
    match r {
        Ok(v) => Ok(v@),
        Err(m) => Err(m@),
    }
}

} // verus!
