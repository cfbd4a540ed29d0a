//! The canonical encoding of the packets that have one, and the proof
//! that the decoder reads it back.

use crate::buffer::{lemma_bytes_of_bits, lemma_first_byte, spec_bits_of_bytes};
use crate::buffer::spec_bytes;
use crate::decoder::{spec_emit, spec_process_stub, spec_step};
use crate::hardware::{
    lemma_event_payload, lemma_le_bytes, spec_event_payload, spec_flag, spec_hardware_source,
    spec_le_bytes,
};
use crate::header::{HeaderModel, PacketStub, spec_decode_header, spec_payload_size, valid_disc_id};
use crate::trace::{MalformedModel, MemoryAccessType, PacketModel, TracePacket};
use vstd::prelude::*;

verus! {

/// The size field of a source packet header for a payload of `len`
/// bytes.
pub open spec fn spec_size_field(len: nat) -> u8 {
    if len == 1 {
        0b01
    } else if len == 2 {
        0b10
    } else {
        0b11
    }
}

/// The header of a source packet: `aaaa_a0ss` for instrumentation,
/// `aaaa_a1ss` for a hardware source.
pub open spec fn spec_source_header(address: u8, hardware: bool, size: u8) -> u8 {
    (address << 3) | (if hardware {
        0b100u8
    } else {
        0u8
    }) | size
}

/// The discriminator of a data trace packet: `tt` the kind, `cc` the
/// comparator, `d` the direction or the sub-kind.
pub open spec fn spec_data_trace_disc(kind: u8, comparator: u8, d: bool) -> u8 {
    (kind << 3) | (comparator << 1) | (if d {
        1u8
    } else {
        0u8
    })
}

/// Whether `packet` has a canonical encoding: it is of a kind whose
/// bytes are determined by its fields, and its fields are in range.
pub open spec fn spec_canonical(packet: PacketModel) -> bool {
    match packet {
        PacketModel::Overflow => true,
        PacketModel::Extension { page } => page <= 7,
        PacketModel::LocalTimestamp2 { ts } => 1 <= ts <= 6,
        PacketModel::Instrumentation { port, payload } => port <= 31 && (payload.len() == 1
            || payload.len() == 2 || payload.len() == 4),
        PacketModel::EventCounterWrap { .. } => true,
        PacketModel::PCSample { pc } => pc.is_some(),
        PacketModel::DataTracePC { comparator, .. } => comparator <= 3,
        PacketModel::DataTraceAddress { comparator, data } => comparator <= 3 && data.len() == 2,
        PacketModel::DataTraceValue { comparator, value, .. } => comparator <= 3 && (value.len()
            == 1 || value.len() == 2 || value.len() == 4),
        _ => false,
    }
}

/// The bytes that the target sends for `packet`.
pub open spec fn spec_encode(packet: PacketModel) -> Seq<u8> {
    match packet {
        PacketModel::Overflow => seq![0b0111_0000u8],
        PacketModel::Extension { page } => seq![(page << 4) | 0b0000_1000],
        PacketModel::LocalTimestamp2 { ts } => seq![ts << 4],
        PacketModel::Instrumentation { port, payload } => seq![
            spec_source_header(port, false, spec_size_field(payload.len())),
        ] + payload,
        PacketModel::EventCounterWrap { cyc, fold, lsu, sleep, exc, cpi } => seq![
            spec_source_header(0, true, 0b01),
            spec_event_payload(cyc, fold, lsu, sleep, exc, cpi),
        ],
        PacketModel::PCSample { pc: Some(pc) } => seq![spec_source_header(2, true, 0b11)]
            + spec_le_bytes(pc),
        PacketModel::DataTracePC { comparator, pc } => seq![
            spec_source_header(spec_data_trace_disc(0b01, comparator, false), true, 0b11),
        ] + spec_le_bytes(pc),
        PacketModel::DataTraceAddress { comparator, data } => seq![
            spec_source_header(spec_data_trace_disc(0b01, comparator, true), true, 0b10),
        ] + data,
        PacketModel::DataTraceValue { comparator, access_type, value } => seq![
            spec_source_header(
                spec_data_trace_disc(0b10, comparator, access_type == MemoryAccessType::Write),
                true,
                spec_size_field(value.len()),
            ),
        ] + value,
        _ => Seq::empty(),
    }
}

/// The size field for a payload of `len` bytes, if a source packet can
/// have such a payload.
fn size_field(len: usize) -> (r: Option<u8>)
    ensures
        len == 1 || len == 2 || len == 4 ==> r == Some(spec_size_field(len as nat)),
        !(len == 1 || len == 2 || len == 4) ==> r.is_none(),
{
    match len {
        1 => Some(0b01),
        2 => Some(0b10),
        4 => Some(0b11),
        _ => None,
    }
}

/// A header byte and the payload behind it.
fn source_packet(header: u8, payload: &Vec<u8>) -> (bytes: Vec<u8>)
    requires
        payload@.len() <= 4,
    ensures
        bytes@ == seq![header] + payload@,
{
    let mut bytes: Vec<u8> = Vec::new();
    bytes.push(header);
    let mut i: usize = 0;
    while i < payload.len()
        invariant
            i <= payload@.len(),
            bytes@ == seq![header] + payload@.take(i as int),
        decreases payload@.len() - i,
    {
        bytes.push(payload[i]);
        i = i + 1;
        proof {
            assert(bytes@ =~= seq![header] + payload@.take(i as int));
        }
    }
    proof {
        assert(payload@.take(payload@.len() as int) =~= payload@);
    }
    bytes
}

/// A header byte and a number behind it, the least significant byte
/// first.
fn word_packet(header: u8, word: u32) -> (bytes: Vec<u8>)
    ensures
        bytes@ == seq![header] + spec_le_bytes(word),
{
    let mut bytes: Vec<u8> = Vec::new();
    bytes.push(header);
    bytes.push((word % 0x100) as u8);
    bytes.push(((word / 0x100) % 0x100) as u8);
    bytes.push(((word / 0x1_0000) % 0x100) as u8);
    bytes.push((word / 0x100_0000) as u8);
    proof {
        assert(bytes@ =~= seq![header] + spec_le_bytes(word));
    }
    bytes
}

/// The bytes that the target sends for `packet`; `None` where the packet
/// has no canonical encoding.
pub fn encode(packet: &TracePacket) -> (r: Option<Vec<u8>>)
    ensures
        spec_canonical(packet@) ==> (r matches Some(bytes) && bytes@ == spec_encode(packet@)),
        !spec_canonical(packet@) ==> r.is_none(),
{
    match packet {
        TracePacket::Overflow => {
            let mut bytes: Vec<u8> = Vec::new();
            bytes.push(0b0111_0000);
            proof {
                assert(bytes@ =~= spec_encode(packet@));
            }
            Some(bytes)
        },
        TracePacket::Extension { page } => {
            if *page > 7 {
                return None;
            }
            let mut bytes: Vec<u8> = Vec::new();
            bytes.push((*page << 4) | 0b0000_1000);
            proof {
                assert(bytes@ =~= spec_encode(packet@));
            }
            Some(bytes)
        },
        TracePacket::LocalTimestamp2 { ts } => {
            if *ts < 1 || *ts > 6 {
                return None;
            }
            let mut bytes: Vec<u8> = Vec::new();
            bytes.push(*ts << 4);
            proof {
                assert(bytes@ =~= spec_encode(packet@));
            }
            Some(bytes)
        },
        TracePacket::Instrumentation { port, payload } => {
            if *port > 31 {
                return None;
            }
            match size_field(payload.len()) {
                Some(size) => Some(source_packet((*port << 3) | 0u8 | size, payload)),
                None => None,
            }
        },
        TracePacket::EventCounterWrap { cyc, fold, lsu, sleep, exc, cpi } => {
            let flags = flag(*cpi, 0b00_0001) | flag(*exc, 0b00_0010) | flag(*sleep, 0b00_0100)
                | flag(*lsu, 0b00_1000) | flag(*fold, 0b01_0000) | flag(*cyc, 0b10_0000);
            let mut bytes: Vec<u8> = Vec::new();
            bytes.push((0u8 << 3) | 0b100u8 | 0b01);
            bytes.push(flags);
            proof {
                assert(bytes@ =~= spec_encode(packet@));
            }
            Some(bytes)
        },
        TracePacket::PCSample { pc } => match pc {
            Some(pc) => Some(word_packet((2u8 << 3) | 0b100u8 | 0b11, *pc)),
            None => None,
        },
        TracePacket::DataTracePC { comparator, pc } => {
            if *comparator > 3 {
                return None;
            }
            let disc = (0b01u8 << 3) | (*comparator << 1) | 0u8;
            Some(word_packet((disc << 3) | 0b100u8 | 0b11, *pc))
        },
        TracePacket::DataTraceAddress { comparator, data } => {
            if *comparator > 3 || data.len() != 2 {
                return None;
            }
            let disc = (0b01u8 << 3) | (*comparator << 1) | 1u8;
            Some(source_packet((disc << 3) | 0b100u8 | 0b10, data))
        },
        TracePacket::DataTraceValue { comparator, access_type, value } => {
            if *comparator > 3 {
                return None;
            }
            let d: u8 = match access_type {
                MemoryAccessType::Read => 0,
                MemoryAccessType::Write => 1,
            };
            let disc = (0b10u8 << 3) | (*comparator << 1) | d;
            match size_field(value.len()) {
                Some(size) => Some(source_packet((disc << 3) | 0b100u8 | size, value)),
                None => None,
            }
        },
        _ => None,
    }
}

/// `mask` where `set`, else nothing.
fn flag(set: bool, mask: u8) -> (r: u8)
    ensures
        r == spec_flag(set, mask),
{
    if set {
        mask
    } else {
        0
    }
}

proof fn lemma_header_extension(page: u8, h: u8)
    by (bit_vector)
    requires
        page <= 7,
        h == (page << 4) | 0b0000_1000,
    ensures
        h != 0,
        h != 0b0111_0000,
        h & 0b1100_1111 != 0b1100_0000,
        h & 0b1000_1111 != 0,
        h != 0b1001_0100,
        h != 0b1011_0100,
        h & 0b1000_1111 == 0b0000_1000,
        (h >> 4) & 0b111 == page,
{
}

proof fn lemma_header_lts2(ts: u8, h: u8)
    by (bit_vector)
    requires
        1 <= ts <= 6,
        h == ts << 4,
    ensures
        h != 0,
        h != 0b0111_0000,
        h & 0b1100_1111 != 0b1100_0000,
        h & 0b1000_1111 == 0,
        (h >> 4) & 0b111 == ts,
{
}

proof fn lemma_header_source(address: u8, tag: u8, size: u8, h: u8)
    by (bit_vector)
    requires
        address <= 31,
        tag == 0 || tag == 0b100,
        1 <= size <= 3,
        h == (address << 3) | tag | size,
    ensures
        h != 0,
        h != 0b0111_0000,
        h & 0b1100_1111 != 0b1100_0000,
        h & 0b1000_1111 != 0,
        h != 0b1001_0100,
        h != 0b1011_0100,
        h & 0b1000_1111 != 0b0000_1000,
        h & 0b0000_0100 == tag,
        h >> 3 == address,
        h & 0b11 == size,
{
}

proof fn lemma_data_trace_disc(kind: u8, comparator: u8, d: u8, disc: u8)
    by (bit_vector)
    requires
        kind == 1 || kind == 2,
        comparator <= 3,
        d <= 1,
        disc == (kind << 3) | (comparator << 1) | d,
    ensures
        8 <= disc <= 23,
        (disc >> 3) & 0b11 == kind,
        (disc >> 1) & 0b11 == comparator,
        disc & 0b1 == d,
{
}

/// What the decoder makes of a source packet: a header that leaves
/// `stub`, and the payload `payload`, whatever bits follow.
proof fn lemma_source_packet(header: u8, stub: PacketStub, payload: Seq<u8>, more: Seq<bool>)
    requires
        spec_decode_header(header) == Ok::<HeaderModel, MalformedModel>(HeaderModel::Stub(stub)),
        stub matches PacketStub::Instrumentation { expected_size, .. }
            ==> expected_size.spec_bytes() == payload.len(),
        stub matches PacketStub::HardwareSource { expected_size, .. }
            ==> expected_size.spec_bytes() == payload.len(),
        stub is Instrumentation || stub is HardwareSource,
    ensures
        spec_step(None, spec_bits_of_bytes(seq![header] + payload) + more) == spec_process_stub(
            stub,
            spec_bits_of_bytes(payload) + more,
        ),
        spec_bytes(spec_bits_of_bytes(payload) + more, payload.len()) == payload,
        (spec_bits_of_bytes(payload) + more).skip(8 * (payload.len() as int)) == more,
        (spec_bits_of_bytes(payload) + more).len() >= 8 * payload.len(),
{
    let bytes = seq![header] + payload;
    lemma_first_byte(bytes, more);
    assert(bytes.skip(1) =~= payload);
    lemma_bytes_of_bits(payload, more, payload.len());
    assert(payload.take(payload.len() as int) =~= payload);
    assert(spec_bits_of_bytes(payload.skip(payload.len() as int)) + more =~= more);
}

/// What the decoder makes of a header that is a whole packet.
proof fn lemma_header_packet(header: u8, packet: PacketModel, more: Seq<bool>)
    requires
        spec_decode_header(header) == Ok::<HeaderModel, MalformedModel>(
            HeaderModel::Packet(packet),
        ),
    ensures
        spec_step(None, spec_bits_of_bytes(seq![header]) + more) == spec_emit(Ok(packet), more),
{
    let bytes = seq![header];
    lemma_first_byte(bytes, more);
    assert(spec_bits_of_bytes(bytes.skip(1)) + more =~= more);
}

proof fn lemma_round_trip_instrumentation(port: u8, payload: Seq<u8>, more: Seq<bool>)
    requires
        spec_canonical(PacketModel::Instrumentation { port, payload }),
    ensures
        spec_step(
            None,
            spec_bits_of_bytes(spec_encode(PacketModel::Instrumentation { port, payload })) + more,
        ) == spec_emit(Ok(PacketModel::Instrumentation { port, payload }), more),
{
    let size = spec_size_field(payload.len());
    let header = spec_source_header(port, false, size);
    lemma_header_source(port, 0, size, header);
    let stub = PacketStub::Instrumentation {
        port,
        expected_size: spec_payload_size(size).unwrap(),
    };
    lemma_source_packet(header, stub, payload, more);
}

proof fn lemma_round_trip_hardware(disc_id: u8, payload: Seq<u8>, more: Seq<bool>)
    requires
        valid_disc_id(disc_id),
        payload.len() == 1 || payload.len() == 2 || payload.len() == 4,
    ensures
        spec_step(
            None,
            spec_bits_of_bytes(
                seq![spec_source_header(disc_id, true, spec_size_field(payload.len()))] + payload,
            ) + more,
        ) == spec_emit(spec_hardware_source(disc_id, payload), more),
{
    let size = spec_size_field(payload.len());
    let header = spec_source_header(disc_id, true, size);
    lemma_header_source(disc_id, 0b100, size, header);
    let stub = PacketStub::HardwareSource {
        disc_id,
        expected_size: spec_payload_size(size).unwrap(),
    };
    lemma_source_packet(header, stub, payload, more);
}

proof fn lemma_round_trip_header(packet: PacketModel, more: Seq<bool>)
    requires
        spec_canonical(packet),
        packet is Overflow || packet is Extension || packet is LocalTimestamp2,
    ensures
        spec_step(None, spec_bits_of_bytes(spec_encode(packet)) + more) == spec_emit(
            Ok(packet),
            more,
        ),
{
    let bytes = spec_encode(packet);
    assert(bytes =~= seq![bytes[0]]);
    match packet {
        PacketModel::Extension { page } => {
            lemma_header_extension(page, bytes[0]);
        },
        PacketModel::LocalTimestamp2 { ts } => {
            lemma_header_lts2(ts, bytes[0]);
        },
        _ => {},
    }
    lemma_header_packet(bytes[0], packet, more);
}

proof fn lemma_round_trip_event_counter(packet: PacketModel, more: Seq<bool>)
    requires
        packet is EventCounterWrap,
    ensures
        spec_step(None, spec_bits_of_bytes(spec_encode(packet)) + more) == spec_emit(
            Ok(packet),
            more,
        ),
{
    if let PacketModel::EventCounterWrap { cyc, fold, lsu, sleep, exc, cpi } = packet {
        let flags = spec_event_payload(cyc, fold, lsu, sleep, exc, cpi);
        let payload = seq![flags];
        let header = spec_source_header(0, true, spec_size_field(payload.len()));
        assert(spec_encode(packet) =~= seq![header] + payload);
        assert(spec_hardware_source(0, payload) == Ok::<PacketModel, MalformedModel>(packet)) by {
            lemma_event_payload(cyc, fold, lsu, sleep, exc, cpi);
        }
        lemma_round_trip_hardware(0, payload, more);
    }
}

proof fn lemma_round_trip_pc(packet: PacketModel, more: Seq<bool>)
    requires
        spec_canonical(packet),
        packet is PCSample || packet is DataTracePC,
    ensures
        spec_step(None, spec_bits_of_bytes(spec_encode(packet)) + more) == spec_emit(
            Ok(packet),
            more,
        ),
{
    match packet {
        PacketModel::PCSample { pc } => {
            lemma_round_trip_hardware(2, spec_le_bytes(pc.unwrap()), more);
            lemma_le_bytes(pc.unwrap());
        },
        PacketModel::DataTracePC { comparator, pc } => {
            let disc = spec_data_trace_disc(0b01, comparator, false);
            lemma_data_trace_disc(0b01, comparator, 0, disc);
            lemma_round_trip_hardware(disc, spec_le_bytes(pc), more);
            lemma_le_bytes(pc);
        },
        _ => {},
    }
}

proof fn lemma_round_trip_data(packet: PacketModel, more: Seq<bool>)
    requires
        spec_canonical(packet),
        packet is DataTraceAddress || packet is DataTraceValue,
    ensures
        spec_step(None, spec_bits_of_bytes(spec_encode(packet)) + more) == spec_emit(
            Ok(packet),
            more,
        ),
{
    match packet {
        PacketModel::DataTraceAddress { comparator, data } => {
            let disc = spec_data_trace_disc(0b01, comparator, true);
            lemma_data_trace_disc(0b01, comparator, 1, disc);
            lemma_round_trip_hardware(disc, data, more);
        },
        PacketModel::DataTraceValue { comparator, access_type, value } => {
            let d = access_type == MemoryAccessType::Write;
            let disc = spec_data_trace_disc(0b10, comparator, d);
            lemma_data_trace_disc(
                0b10,
                comparator,
                if d {
                    1
                } else {
                    0
                },
                disc,
            );
            lemma_round_trip_hardware(disc, value, more);
        },
        _ => {},
    }
}

/// Round-trip stability: the canonical encoding of a packet, whatever
/// bits follow it, is decoded at a packet boundary as that packet, and
/// leaves the bits that follow.
pub proof fn lemma_round_trip(packet: PacketModel, more: Seq<bool>)
    requires
        spec_canonical(packet),
    ensures
        spec_step(None, spec_bits_of_bytes(spec_encode(packet)) + more) == spec_emit(
            Ok(packet),
            more,
        ),
{
    match packet {
        PacketModel::Instrumentation { port, payload } => {
            lemma_round_trip_instrumentation(port, payload, more);
        },
        PacketModel::EventCounterWrap { .. } => {
            lemma_round_trip_event_counter(packet, more);
        },
        PacketModel::PCSample { .. } => {
            lemma_round_trip_pc(packet, more);
        },
        PacketModel::DataTracePC { .. } => {
            lemma_round_trip_pc(packet, more);
        },
        PacketModel::DataTraceAddress { .. } => {
            lemma_round_trip_data(packet, more);
        },
        PacketModel::DataTraceValue { .. } => {
            lemma_round_trip_data(packet, more);
        },
        _ => {
            lemma_round_trip_header(packet, more);
        },
    }
}

} // verus!
