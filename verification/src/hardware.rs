//! Decoding of the payload of a hardware source packet (Appendix D4.3).

use crate::trace::{
    ExceptionAction, MalformedModel, MalformedPacket, MemoryAccessType, PacketModel, TracePacket,
    VectActive, lemma_vect_active_number, result_view,
};
use byteorder::ByteOrder;
use byteorder::LittleEndian;
use vstd::prelude::*;

verus! {

/// The number that four bytes stand for, the first byte least significant.
pub open spec fn spec_u32_le(bytes: Seq<u8>) -> u32
    recommends
        bytes.len() >= 4,
{
    (bytes[0] as int + 0x100 * (bytes[1] as int) + 0x1_0000 * (bytes[2] as int) + 0x100_0000 * (
    bytes[3] as int)) as u32
}

/// The number that two bytes stand for, the first byte least significant.
pub open spec fn spec_u16_le(bytes: Seq<u8>) -> u16
    recommends
        bytes.len() >= 2,
{
    (bytes[0] as int + 0x100 * (bytes[1] as int)) as u16
}

/// `byteorder::LittleEndian::read_u32`: reads the first four bytes as a
/// number in little-endian order. It panics on fewer than four bytes.
#[verifier::external_body]
pub(crate) fn read_u32_le(bytes: &[u8]) -> (r: u32)
    requires
        bytes@.len() >= 4,
    ensures
        r == spec_u32_le(bytes@),
{
    LittleEndian::read_u32(bytes)
}

/// `byteorder::LittleEndian::read_u16`: reads the first two bytes as a
/// number in little-endian order. It panics on fewer than two bytes.
#[verifier::external_body]
pub(crate) fn read_u16_le(bytes: &[u8]) -> (r: u16)
    requires
        bytes@.len() >= 2,
    ensures
        r == spec_u16_le(bytes@),
{
    LittleEndian::read_u16(bytes)
}

/// The action that the function field of an exception trace packet
/// stands for, if any.
pub open spec fn spec_exception_action(function: u8) -> Option<ExceptionAction> {
    if function == 1 {
        Some(ExceptionAction::Entered)
    } else if function == 2 {
        Some(ExceptionAction::Exited)
    } else if function == 3 {
        Some(ExceptionAction::Returned)
    } else {
        None
    }
}

/// The meaning of an event counter payload: one flag per bit.
pub open spec fn spec_event_counter(b: u8) -> PacketModel {
    PacketModel::EventCounterWrap {
        cyc: b & 0b10_0000 != 0,
        fold: b & 0b01_0000 != 0,
        lsu: b & 0b00_1000 != 0,
        sleep: b & 0b00_0100 != 0,
        exc: b & 0b00_0010 != 0,
        cpi: b & 0b00_0001 != 0,
    }
}

/// `mask` where `flag` is set, else nothing.
pub open spec fn spec_flag(flag: bool, mask: u8) -> u8 {
    if flag {
        mask
    } else {
        0
    }
}

/// The event counter payload that stands for six flags.
pub open spec fn spec_event_payload(
    cyc: bool,
    fold: bool,
    lsu: bool,
    sleep: bool,
    exc: bool,
    cpi: bool,
) -> u8 {
    spec_flag(cpi, 0b00_0001) | spec_flag(exc, 0b00_0010) | spec_flag(sleep, 0b00_0100) | spec_flag(
        lsu,
        0b00_1000,
    ) | spec_flag(fold, 0b01_0000) | spec_flag(cyc, 0b10_0000)
}

/// The bits of an event counter payload do not mix.
pub proof fn lemma_flags(c0: u8, c1: u8, c2: u8, c3: u8, c4: u8, c5: u8)
    by (bit_vector)
    requires
        c0 == 0 || c0 == 0b00_0001,
        c1 == 0 || c1 == 0b00_0010,
        c2 == 0 || c2 == 0b00_0100,
        c3 == 0 || c3 == 0b00_1000,
        c4 == 0 || c4 == 0b01_0000,
        c5 == 0 || c5 == 0b10_0000,
    ensures
        ((c0 | c1 | c2 | c3 | c4 | c5) & 0b00_0001 != 0) == (c0 != 0),
        ((c0 | c1 | c2 | c3 | c4 | c5) & 0b00_0010 != 0) == (c1 != 0),
        ((c0 | c1 | c2 | c3 | c4 | c5) & 0b00_0100 != 0) == (c2 != 0),
        ((c0 | c1 | c2 | c3 | c4 | c5) & 0b00_1000 != 0) == (c3 != 0),
        ((c0 | c1 | c2 | c3 | c4 | c5) & 0b01_0000 != 0) == (c4 != 0),
        ((c0 | c1 | c2 | c3 | c4 | c5) & 0b10_0000 != 0) == (c5 != 0),
{
}

/// The payload that stands for six flags is read as these flags.
pub proof fn lemma_event_payload(
    cyc: bool,
    fold: bool,
    lsu: bool,
    sleep: bool,
    exc: bool,
    cpi: bool,
)
    ensures
        spec_event_counter(spec_event_payload(cyc, fold, lsu, sleep, exc, cpi)) == (
        PacketModel::EventCounterWrap { cyc, fold, lsu, sleep, exc, cpi }),
{
    lemma_flags(
        spec_flag(cpi, 0b00_0001),
        spec_flag(exc, 0b00_0010),
        spec_flag(sleep, 0b00_0100),
        spec_flag(lsu, 0b00_1000),
        spec_flag(fold, 0b01_0000),
        spec_flag(cyc, 0b10_0000),
    );
}

/// The four bytes that stand for a number, the least significant first.
pub open spec fn spec_le_bytes(x: u32) -> Seq<u8> {
    seq![
        (x % 0x100) as u8,
        ((x / 0x100) % 0x100) as u8,
        ((x / 0x1_0000) % 0x100) as u8,
        (x / 0x100_0000) as u8,
    ]
}

/// The bytes that stand for a number are read as that number.
pub proof fn lemma_le_bytes(x: u32)
    ensures
        spec_u32_le(spec_le_bytes(x)) == x,
{
}

/// The exception number of an exception trace payload: nine bits, the
/// ninth in bit 0 of the second byte.
pub open spec fn spec_exception_number(payload: Seq<u8>) -> u16 {
    (((payload[1] & 1) as u16) << 8) | (payload[0] as u16)
}

/// The function field of an exception trace payload.
pub open spec fn spec_exception_function(payload: Seq<u8>) -> u8 {
    (payload[1] >> 4) & 0b11
}

/// The meaning of an exception trace payload of two bytes.
pub open spec fn spec_exception_trace(payload: Seq<u8>) -> Result<PacketModel, MalformedModel> {
    let number = spec_exception_number(payload);
    let function = spec_exception_function(payload);
    let malformed = Err(MalformedModel::InvalidExceptionTrace { exception: number, function });
    if number > 0xff {
        malformed
    } else {
        match (VectActive::spec_from(number as u8), spec_exception_action(function)) {
            (Some(exception), Some(action)) => Ok(PacketModel::ExceptionTrace { exception, action }),
            _ => malformed,
        }
    }
}

/// The meaning of a data trace payload. The discriminator reads
/// `???t_tccd`: `tt` the kind, `cc` the comparator, `d` the direction or
/// the sub-kind.
pub open spec fn spec_data_trace(disc_id: u8, payload: Seq<u8>) -> Result<
    PacketModel,
    MalformedModel,
> {
    let kind = (disc_id >> 3) & 0b11;
    let comparator = (disc_id >> 1) & 0b11;
    let d = disc_id & 0b1;
    if kind == 0b01 && d == 0 && payload.len() == 4 {
        Ok(PacketModel::DataTracePC { comparator, pc: spec_u32_le(payload) })
    } else if kind == 0b01 && d == 1 && payload.len() == 2 {
        Ok(PacketModel::DataTraceAddress { comparator, data: payload })
    } else if kind == 0b10 {
        Ok(
            PacketModel::DataTraceValue {
                comparator,
                access_type: if d == 0 {
                    MemoryAccessType::Read
                } else {
                    MemoryAccessType::Write
                },
                value: payload,
            },
        )
    } else {
        Err(MalformedModel::InvalidHardwarePacket { disc_id, payload })
    }
}

/// The meaning of the payload of a hardware source packet with
/// discriminator `disc_id`.
pub open spec fn spec_hardware_source(disc_id: u8, payload: Seq<u8>) -> Result<
    PacketModel,
    MalformedModel,
> {
    if disc_id == 0 {
        if payload.len() == 1 {
            Ok(spec_event_counter(payload[0]))
        } else {
            Err(MalformedModel::InvalidHardwarePacket { disc_id, payload })
        }
    } else if disc_id == 1 {
        if payload.len() == 2 {
            spec_exception_trace(payload)
        } else {
            Err(MalformedModel::InvalidHardwarePacket { disc_id, payload })
        }
    } else if disc_id == 2 {
        if payload.len() == 1 && payload[0] == 0 {
            Ok(PacketModel::PCSample { pc: None })
        } else if payload.len() == 4 {
            Ok(PacketModel::PCSample { pc: Some(spec_u32_le(payload)) })
        } else {
            Err(MalformedModel::InvalidPCSampleSize { payload })
        }
    } else if 8 <= disc_id && disc_id <= 23 {
        spec_data_trace(disc_id, payload)
    } else {
        Err(MalformedModel::InvalidHardwarePacket { disc_id, payload })
    }
}

proof fn lemma_comparator(disc_id: u8)
    by (bit_vector)
    ensures
        (disc_id >> 1) & 0b11 <= 3,
{
}

/// The packet that a hardware source payload of 1, 2 or 4 bytes stands
/// for is within the ranges of the protocol.
pub proof fn lemma_hardware_wf(disc_id: u8, payload: Seq<u8>)
    requires
        payload.len() == 1 || payload.len() == 2 || payload.len() == 4,
    ensures
        spec_hardware_source(disc_id, payload) matches Ok(packet) ==> packet.wf(),
{
    lemma_comparator(disc_id);
    if disc_id == 1 && payload.len() == 2 {
        let number = spec_exception_number(payload);
        if number <= 0xff {
            lemma_vect_active_number(number as u8, VectActive::ThreadMode);
        }
    }
}

fn exception_action(function: u8) -> (r: Option<ExceptionAction>)
    ensures
        r == spec_exception_action(function),
{
    match function {
        0b01 => Some(ExceptionAction::Entered),
        0b10 => Some(ExceptionAction::Exited),
        0b11 => Some(ExceptionAction::Returned),
        _ => None,
    }
}

fn exception_trace(payload: Vec<u8>) -> (r: Result<TracePacket, MalformedPacket>)
    requires
        payload@.len() == 2,
    ensures
        result_view(r) == spec_exception_trace(payload@),
{
    let function = (payload[1] >> 4) & 0b11;
    let exception_number: u16 = (((payload[1] & 1) as u16) << 8) | (payload[0] as u16);
    if exception_number > 0xff {
        return Err(
            MalformedPacket::InvalidExceptionTrace { exception: exception_number, function },
        );
    }
    match (VectActive::from(exception_number as u8), exception_action(function)) {
        (Some(exception), Some(action)) => Ok(TracePacket::ExceptionTrace { exception, action }),
        _ => Err(MalformedPacket::InvalidExceptionTrace { exception: exception_number, function }),
    }
}

fn data_trace(disc_id: u8, payload: Vec<u8>) -> (r: Result<TracePacket, MalformedPacket>)
    ensures
        result_view(r) == spec_data_trace(disc_id, payload@),
{
    let kind = (disc_id >> 3) & 0b11;
    let comparator = (disc_id >> 1) & 0b11;
    let d = disc_id & 0b1;
    if kind == 0b01 && d == 0 && payload.len() == 4 {
        // PC value packet
        Ok(TracePacket::DataTracePC { comparator, pc: read_u32_le(payload.as_slice()) })
    } else if kind == 0b01 && d == 1 && payload.len() == 2 {
        // address packet
        Ok(TracePacket::DataTraceAddress { comparator, data: payload })
    } else if kind == 0b10 {
        // data value packet
        Ok(
            TracePacket::DataTraceValue {
                comparator,
                access_type: if d == 0 {
                    MemoryAccessType::Read
                } else {
                    MemoryAccessType::Write
                },
                value: payload,
            },
        )
    } else {
        Err(MalformedPacket::InvalidHardwarePacket { disc_id, payload })
    }
}

/// Decodes the payload of a hardware source packet.
pub fn handle_hardware_source(disc_id: u8, payload: Vec<u8>) -> (r: Result<
    TracePacket,
    MalformedPacket,
>)
    ensures
        result_view(r) == spec_hardware_source(disc_id, payload@),
        (payload@.len() == 1 || payload@.len() == 2 || payload@.len() == 4) ==> (r matches Ok(
            packet,
        ) ==> packet@.wf()),
{
    proof {
        if payload@.len() == 1 || payload@.len() == 2 || payload@.len() == 4 {
            lemma_hardware_wf(disc_id, payload@);
        }
    }
    match disc_id {
        0 => {
            // event counter wrap
            if payload.len() != 1 {
                return Err(MalformedPacket::InvalidHardwarePacket { disc_id, payload });
            }
            let b = payload[0];
            Ok(
                TracePacket::EventCounterWrap {
                    cyc: b & 0b10_0000 != 0,
                    fold: b & 0b01_0000 != 0,
                    lsu: b & 0b00_1000 != 0,
                    sleep: b & 0b00_0100 != 0,
                    exc: b & 0b00_0010 != 0,
                    cpi: b & 0b00_0001 != 0,
                },
            )
        },
        1 => {
            // exception trace
            if payload.len() != 2 {
                return Err(MalformedPacket::InvalidHardwarePacket { disc_id, payload });
            }
            exception_trace(payload)
        },
        2 => {
            // PC sample
            if payload.len() == 1 && payload[0] == 0 {
                Ok(TracePacket::PCSample { pc: None })
            } else if payload.len() == 4 {
                Ok(TracePacket::PCSample { pc: Some(read_u32_le(payload.as_slice())) })
            } else {
                Err(MalformedPacket::InvalidPCSampleSize { payload })
            }
        },
        8..=23 => data_trace(disc_id, payload),
        _ => Err(MalformedPacket::InvalidHardwarePacket { disc_id, payload }),
    }
}

} // verus!
