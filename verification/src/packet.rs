//! ITM packets by category, each with the accessors of its fields.
//!
//! A [`Packet`] is a decoded packet together with its header byte. It is
//! made from a [`TracePacket`] and keeps what the protocol says of the
//! packet in the terms of the manual.

use crate::hardware::{lemma_flags, read_u16_le, spec_u16_le};
use crate::trace::{
    ExceptionAction, MemoryAccessType, PacketModel, TimestampDataRelation, TracePacket,
};
use vstd::array::array_as_slice;
use vstd::prelude::*;
use vstd::slice::slice_subrange;

verus! {

/// Synchronization packet
#[derive(Clone, Copy, Debug)]
pub struct Synchronization {
    pub(crate) len: u8,
}

impl Synchronization {
    /// The length in bytes of this synchronization packet.
    pub closed spec fn spec_len(&self) -> u8 {
        self.len
    }

    /// The length in bytes of this synchronization packet
    pub fn len(&self) -> (r: u8)
        ensures
            r == self.spec_len(),
    {
        self.len
    }
}

/// Instrumentation packet
#[derive(Clone, Copy, Debug)]
pub struct Instrumentation {
    pub(crate) buffer: [u8; 4],
    pub(crate) port: u8,
    pub(crate) size: u8,
}

impl Instrumentation {
    #[verifier::type_invariant]
    spec fn inv(self) -> bool {
        self.size <= 4
    }

    /// The stimulus port that generated this packet.
    pub closed spec fn spec_port(&self) -> u8 {
        self.port
    }

    /// The payload of this packet.
    pub closed spec fn spec_payload(&self) -> Seq<u8> {
        self.buffer@.take(self.size as int)
    }

    /// The stimulus port that generated this packet
    pub fn port(&self) -> (r: u8)
        ensures
            r == self.spec_port(),
    {
        self.port
    }

    /// The payload of this packet
    pub fn payload(&self) -> (r: &[u8])
        ensures
            r@ == self.spec_payload(),
    {
        proof {
            use_type_invariant(self);
        }
        slice_subrange(array_as_slice(&self.buffer), 0, self.size as usize)
    }
}

/// Local timestamp packet
#[derive(Clone, Copy, Debug)]
pub struct LocalTimestamp {
    pub(crate) delta: u32,
    // TC[1:0] bits
    pub(crate) tc: u8,
    // Size of this packet in bytes, including the header
    pub(crate) len: u8,
}

impl LocalTimestamp {
    /// The local timestamp value.
    pub closed spec fn spec_delta(&self) -> u32 {
        self.delta
    }

    /// The field `TC` of the header: bit 0 says that the timestamp is
    /// delayed, bit 1 that the event is.
    pub closed spec fn spec_tc(&self) -> u8 {
        self.tc
    }

    /// The size of the packet in bytes, including the header.
    pub closed spec fn spec_len(&self) -> u8 {
        self.len
    }

    /// The local timestamp value
    ///
    /// This is the interval since the previous Local timestamp packet
    pub fn delta(&self) -> (r: u32)
        ensures
            r == self.spec_delta(),
    {
        self.delta
    }

    /// The local timestamp value is synchronous to the corresponding ITM or DWT data.
    ///
    /// The value in the TS field is the timestamp counter value when the ITM or DWT packet is
    /// generated.
    pub fn is_precise(&self) -> (r: bool)
        ensures
            r == (self.spec_tc() == 0),
    {
        self.tc == 0
    }

    /// The local timestamp value is delayed relative to the ITM or DWT data.
    ///
    /// The value in the TS field is the timestamp counter value when the Local timestamp packet is
    /// generated.
    pub fn timestamp_delayed(&self) -> (r: bool)
        ensures
            r == (self.spec_tc() & 0b01 == 0b01),
    {
        self.tc & 0b01 == 0b01
    }

    /// Output of the ITM or DWT packet corresponding to this Local timestamp packet is delayed
    /// relative to the associated event.
    ///
    /// The value in the TS field is the timestamp counter value when the ITM or DWT packets is
    /// generated.
    ///
    /// This encoding indicates that the ITM or DWT packet was delayed relative to other trace
    /// output packets.
    pub fn event_delayed(&self) -> (r: bool)
        ensures
            r == (self.spec_tc() & 0b10 == 0b10),
    {
        self.tc & 0b10 == 0b10
    }
}

/// Global timestamp packet (format 1)
#[derive(Clone, Copy, Debug)]
pub struct GTS1 {
    pub(crate) bits: u32,
    pub(crate) clk_ch: bool,
    // Size of this packet in bytes, including the header
    pub(crate) len: u8,
    pub(crate) wrap: bool,
}

impl GTS1 {
    /// Timestamp bits (up to 26 bits).
    pub closed spec fn spec_bits(&self) -> u32 {
        self.bits
    }

    /// Whether the clock change input was asserted.
    pub closed spec fn spec_has_clock_changed(&self) -> bool {
        self.clk_ch
    }

    /// Whether the higher-order bits have changed.
    pub closed spec fn spec_has_wrapped(&self) -> bool {
        self.wrap
    }

    /// The size of the packet in bytes, including the header.
    pub closed spec fn spec_len(&self) -> u8 {
        self.len
    }

    /// Timestamp bits (up to 26 bits)
    pub fn bits(&self) -> (r: u32)
        ensures
            r == self.spec_bits(),
    {
        self.bits
    }

    /// The system has asserted the clock change input to the processor since the last time the ITM
    /// generated a Global timestamp packet
    ///
    /// When this signal is asserted, the ITM must output a full 48-bit or 64-bit global timestamp
    /// value.
    pub fn has_clock_changed(&self) -> (r: bool)
        ensures
            r == self.spec_has_clock_changed(),
    {
        self.clk_ch
    }

    /// The value of global timestamp bits TS[47:26] or TS[63:26] have changed since the last GTS2
    /// packet output by the ITM
    pub fn has_wrapped(&self) -> (r: bool)
        ensures
            r == self.spec_has_wrapped(),
    {
        self.wrap
    }
}

/// Global timestamp packet (format 2)
#[derive(Clone, Copy, Debug)]
pub struct GTS2 {
    pub(crate) bits: u64,
    pub(crate) b64: bool,
}

impl GTS2 {
    /// High-order bits of the global timestamp.
    pub closed spec fn spec_bits(&self) -> u64 {
        self.bits
    }

    /// Whether this is a 64-bit timestamp.
    pub closed spec fn spec_is_64_bit(&self) -> bool {
        self.b64
    }

    /// High-order bits of the global timestamp
    pub fn bits(&self) -> (r: u64)
        ensures
            r == self.spec_bits(),
    {
        self.bits
    }

    /// This is a 64-bit timestamp
    pub fn is_64_bit(&self) -> (r: bool)
        ensures
            r == self.spec_is_64_bit(),
    {
        self.b64
    }
}

/// Stimulus Port Page (Extension packet)
#[derive(Clone, Copy, Debug)]
pub struct StimulusPortPage {
    pub(crate) page: u8,
}

impl StimulusPortPage {
    /// Stimulus port page (3-bit value).
    pub closed spec fn spec_page(&self) -> u8 {
        self.page
    }

    /// Stimulus port page (3-bit value)
    pub fn page(&self) -> (r: u8)
        ensures
            r == self.spec_page(),
    {
        self.page
    }
}

/// Event counter packet
#[derive(Clone, Copy, Debug)]
pub struct EventCounter {
    pub(crate) payload: u8,
}

impl EventCounter {
    /// The payload byte: one flag per bit, CPICNT in bit 0.
    pub closed spec fn spec_payload(&self) -> u8 {
        self.payload
    }

    /// has CPICNT wrapped around?
    pub fn cpi(&self) -> (r: bool)
        ensures
            r == (self.spec_payload() & 1 != 0),
    {
        self.payload & 1 != 0
    }

    /// has EXCCNT wrapped around?
    pub fn exc(&self) -> (r: bool)
        ensures
            r == (self.spec_payload() & 0b00_0010 != 0),
    {
        self.payload & 0b00_0010 != 0
    }

    /// has SLEEPCNT wrapped around?
    pub fn sleep(&self) -> (r: bool)
        ensures
            r == (self.spec_payload() & 0b00_0100 != 0),
    {
        self.payload & 0b00_0100 != 0
    }

    /// has LSUCNT wrapped around?
    pub fn lsu(&self) -> (r: bool)
        ensures
            r == (self.spec_payload() & 0b00_1000 != 0),
    {
        self.payload & 0b00_1000 != 0
    }

    /// has FOLDCNT wrapped around?
    pub fn fold(&self) -> (r: bool)
        ensures
            r == (self.spec_payload() & 0b01_0000 != 0),
    {
        self.payload & 0b01_0000 != 0
    }

    /// has POSTCNT wrapped around?
    pub fn post(&self) -> (r: bool)
        ensures
            r == (self.spec_payload() & 0b10_0000 != 0),
    {
        self.payload & 0b10_0000 != 0
    }
}

/// The action taken by the processor
#[derive(Clone, Copy, Debug, PartialEq, Eq, Structural)]
pub enum Function {
    /// Entered exception
    Enter,
    /// Exited exception
    Exit,
    /// Returned to exception
    Return,
}

/// Exception trace packet
#[derive(Clone, Copy, Debug)]
pub struct ExceptionTrace {
    pub(crate) function: Function,
    pub(crate) number: u16,
}

impl ExceptionTrace {
    /// Exception number.
    pub closed spec fn spec_number(&self) -> u16 {
        self.number
    }

    /// The action taken by the processor.
    pub closed spec fn spec_function(&self) -> Function {
        self.function
    }

    /// Exception number
    pub fn number(&self) -> (r: u16)
        ensures
            r == self.spec_number(),
    {
        self.number
    }

    /// The action taken by the processor
    pub fn function(&self) -> (r: Function)
        ensures
            r == self.spec_function(),
    {
        self.function
    }
}

/// Periodic PC sample packet
#[derive(Clone, Copy, Debug)]
pub struct PeriodicPcSample {
    pub(crate) pc: Option<u32>,
}

impl PeriodicPcSample {
    /// The sampled PC; `None` means that the core is sleeping.
    pub closed spec fn spec_pc(&self) -> Option<u32> {
        self.pc
    }

    /// Returns sampled PC
    ///
    /// `None` means that the core is sleeping (`wfi` / `wfe`)
    pub fn pc(&self) -> (r: Option<u32>)
        ensures
            r == self.spec_pc(),
    {
        self.pc
    }
}

/// Data trace PC packet
#[derive(Clone, Copy, Debug)]
pub struct DataTracePcValue {
    pub(crate) unit: u8,
    pub(crate) pc: u32,
}

impl DataTracePcValue {
    /// Comparator that generated the data.
    pub closed spec fn spec_comparator(&self) -> u8 {
        self.unit
    }

    /// PC value for the instruction that caused the successful address
    /// comparison.
    pub closed spec fn spec_pc(&self) -> u32 {
        self.pc
    }

    /// Comparator that generated the data
    pub fn comparator(&self) -> (r: u8)
        ensures
            r == self.spec_comparator(),
    {
        self.unit
    }

    /// PC value for the instruction that caused the successful address comparison
    pub fn pc(&self) -> (r: u32)
        ensures
            r == self.spec_pc(),
    {
        self.pc
    }
}

/// Data trace address packet
#[derive(Clone, Copy, Debug)]
pub struct DataTraceAddress {
    pub(crate) unit: u8,
    pub(crate) address: u16,
}

impl DataTraceAddress {
    /// Data address that caused the successful address comparison.
    pub closed spec fn spec_address(&self) -> u16 {
        self.address
    }

    /// Comparator that generated the data.
    pub closed spec fn spec_comparator(&self) -> u8 {
        self.unit
    }

    /// Data address that caused the successful address comparison
    pub fn address(&self) -> (r: u16)
        ensures
            r == self.spec_address(),
    {
        self.address
    }

    /// Comparator that generated the data
    pub fn comparator(&self) -> (r: u8)
        ensures
            r == self.spec_comparator(),
    {
        self.unit
    }
}

/// Data trace data value packet
#[derive(Clone, Copy, Debug)]
pub struct DataTraceDataValue {
    pub(crate) buffer: [u8; 4],
    pub(crate) unit: u8,
    pub(crate) size: u8,
    pub(crate) wnr: bool,
}

impl DataTraceDataValue {
    #[verifier::type_invariant]
    spec fn inv(self) -> bool {
        self.size <= 4
    }

    /// Comparator that generated the data.
    pub closed spec fn spec_comparator(&self) -> u8 {
        self.unit
    }

    /// Whether this was a write access.
    pub closed spec fn spec_write_access(&self) -> bool {
        self.wnr
    }

    /// Data value that caused the successful data value comparison.
    pub closed spec fn spec_value(&self) -> Seq<u8> {
        self.buffer@.take(self.size as int)
    }

    /// Comparator that generated the data
    pub fn comparator(&self) -> (r: u8)
        ensures
            r == self.spec_comparator(),
    {
        self.unit
    }

    /// Was this a read access?
    pub fn read_access(&self) -> (r: bool)
        ensures
            r == !self.spec_write_access(),
    {
        !self.wnr
    }

    /// Data value that caused the successful data value comparison
    pub fn value(&self) -> (r: &[u8])
        ensures
            r@ == self.spec_value(),
    {
        proof {
            use_type_invariant(self);
        }
        slice_subrange(array_as_slice(&self.buffer), 0, self.size as usize)
    }

    /// Was this a write access?
    pub fn write_access(&self) -> (r: bool)
        ensures
            r == self.spec_write_access(),
    {
        self.wnr
    }
}


/// The kinds of packet.
#[derive(Clone, Copy, Debug)]
pub enum Kind {
    /// Synchronization packet
    Synchronization(Synchronization),
    /// Overflow packet
    Overflow,
    /// Instrumentation packet
    Instrumentation(Instrumentation),
    /// Local timestamp packet, of either format
    LocalTimestamp(LocalTimestamp),
    /// Global timestamp packet (format 1)
    GTS1(GTS1),
    /// Global timestamp packet (format 2)
    GTS2(GTS2),
    /// Stimulus port page (extension packet)
    StimulusPortPage(StimulusPortPage),
    /// Event counter packet
    EventCounter(EventCounter),
    /// Exception trace packet
    ExceptionTrace(ExceptionTrace),
    /// Periodic PC sample packet
    PeriodicPcSample(PeriodicPcSample),
    /// Data trace PC value packet
    DataTracePcValue(DataTracePcValue),
    /// Data trace address packet
    DataTraceAddress(DataTraceAddress),
    /// Data trace data value packet
    DataTraceDataValue(DataTraceDataValue),
}

/// A decoded packet with the header byte that it began with.
#[derive(Clone, Copy, Debug)]
pub struct Packet {
    /// The header byte.
    pub header: u8,
    /// What the packet is, with its fields.
    pub kind: Kind,
}

impl Packet {
    /// The header byte of this packet.
    pub fn header(&self) -> (r: u8)
        ensures
            r == self.header,
    {
        self.header
    }

    /// The kind (type) of this packet.
    pub fn kind(&self) -> (r: &Kind)
        ensures
            *r == self.kind,
    {
        &self.kind
    }
}

/// The field `TC` of the header of a local timestamp.
pub open spec fn spec_tc(data_relation: TimestampDataRelation) -> u8 {
    match data_relation {
        TimestampDataRelation::Sync => 0b00,
        TimestampDataRelation::UnknownDelay => 0b01,
        TimestampDataRelation::AssocEventDelay => 0b10,
        TimestampDataRelation::UnknownAssocEventDelay => 0b11,
    }
}

/// The action of an exception trace, in the terms of the manual.
pub open spec fn spec_function(action: ExceptionAction) -> Function {
    match action {
        ExceptionAction::Entered => Function::Enter,
        ExceptionAction::Exited => Function::Exit,
        ExceptionAction::Returned => Function::Return,
    }
}

/// Whether `packet` can be held by a [`Kind`]: its payload fits the four
/// bytes that a source packet has at most, and an address has its two.
pub open spec fn spec_has_kind(packet: PacketModel) -> bool {
    match packet {
        PacketModel::Instrumentation { payload, .. } => payload.len() <= 4,
        PacketModel::DataTraceAddress { data, .. } => data.len() == 2,
        PacketModel::DataTraceValue { value, .. } => value.len() <= 4,
        _ => true,
    }
}

/// Whether `kind` holds `packet`, a packet of `len` bytes in all.
pub open spec fn spec_kind_of(kind: Kind, packet: PacketModel, len: u8) -> bool {
    match packet {
        PacketModel::Sync => kind matches Kind::Synchronization(s) && s.spec_len() == len,
        PacketModel::Overflow => kind is Overflow,
        PacketModel::LocalTimestamp1 { ts, data_relation } => kind matches Kind::LocalTimestamp(t)
            && t.spec_delta() == ts && t.spec_tc() == spec_tc(data_relation) && t.spec_len()
            == len,
        PacketModel::LocalTimestamp2 { ts } => kind matches Kind::LocalTimestamp(t)
            && t.spec_delta() == ts && t.spec_tc() == 0 && t.spec_len() == len,
        PacketModel::GlobalTimestamp1 { ts, wrap, clkch } => kind matches Kind::GTS1(g)
            && g.spec_bits() == ts as u32 && g.spec_has_wrapped() == wrap
            && g.spec_has_clock_changed() == clkch && g.spec_len() == len,
        PacketModel::GlobalTimestamp2 { ts } => kind matches Kind::GTS2(g) && g.spec_bits() == ts
            && g.spec_is_64_bit() == (len == 7),
        PacketModel::Extension { page } => kind matches Kind::StimulusPortPage(p) && p.spec_page()
            == page,
        PacketModel::Instrumentation { port, payload } => kind matches Kind::Instrumentation(i)
            && i.spec_port() == port && i.spec_payload() == payload,
        PacketModel::EventCounterWrap { cyc, fold, lsu, sleep, exc, cpi } => kind matches Kind::EventCounter(
            e,
        ) && (e.spec_payload() & 0b00_0001 != 0) == cpi && (e.spec_payload() & 0b00_0010 != 0)
            == exc && (e.spec_payload() & 0b00_0100 != 0) == sleep && (e.spec_payload()
            & 0b00_1000 != 0) == lsu && (e.spec_payload() & 0b01_0000 != 0) == fold && (
        e.spec_payload() & 0b10_0000 != 0) == cyc,
        PacketModel::ExceptionTrace { exception, action } => kind matches Kind::ExceptionTrace(e)
            && e.spec_number() == exception.spec_number() && e.spec_function() == spec_function(
            action,
        ),
        PacketModel::PCSample { pc } => kind matches Kind::PeriodicPcSample(p) && p.spec_pc()
            == pc,
        PacketModel::DataTracePC { comparator, pc } => kind matches Kind::DataTracePcValue(d)
            && d.spec_comparator() == comparator && d.spec_pc() == pc,
        PacketModel::DataTraceAddress { comparator, data } => kind matches Kind::DataTraceAddress(
            d,
        ) && d.spec_comparator() == comparator && d.spec_address() == spec_u16_le(data),
        PacketModel::DataTraceValue { comparator, access_type, value } => kind matches Kind::DataTraceDataValue(
            d,
        ) && d.spec_comparator() == comparator && d.spec_write_access() == (access_type
            == MemoryAccessType::Write) && d.spec_value() == value,
    }
}

/// `mask` where `flag` is set, else nothing.
fn flag_bit(flag: bool, mask: u8) -> (r: u8)
    ensures
        r == if flag {
            mask
        } else {
            0
        },
{
    if flag {
        mask
    } else {
        0
    }
}

/// Up to four bytes, padded with zeros to four.
fn pad4(bytes: &Vec<u8>) -> (r: [u8; 4])
    requires
        bytes@.len() <= 4,
    ensures
        r@.take(bytes@.len() as int) == bytes@,
{
    let n = bytes.len();
    let b0 = if n > 0 {
        bytes[0]
    } else {
        0
    };
    let b1 = if n > 1 {
        bytes[1]
    } else {
        0
    };
    let b2 = if n > 2 {
        bytes[2]
    } else {
        0
    };
    let b3 = if n > 3 {
        bytes[3]
    } else {
        0
    };
    let r = [b0, b1, b2, b3];
    proof {
        assert(r@.take(n as int) =~= bytes@);
    }
    r
}

impl Kind {
    /// The kind that holds `packet`, a packet of `len` bytes in all;
    /// `None` where no kind can hold it.
    pub fn new(packet: &TracePacket, len: u8) -> (r: Option<Kind>)
        ensures
            spec_has_kind(packet@) ==> (r matches Some(kind) && spec_kind_of(kind, packet@, len)),
            !spec_has_kind(packet@) ==> r.is_none(),
    {
        match packet {
            TracePacket::Sync => Some(Kind::Synchronization(Synchronization { len })),
            TracePacket::Overflow => Some(Kind::Overflow),
            TracePacket::LocalTimestamp1 { ts, data_relation } => {
                let tc: u8 = match data_relation {
                    TimestampDataRelation::Sync => 0b00,
                    TimestampDataRelation::UnknownDelay => 0b01,
                    TimestampDataRelation::AssocEventDelay => 0b10,
                    TimestampDataRelation::UnknownAssocEventDelay => 0b11,
                };
                Some(Kind::LocalTimestamp(LocalTimestamp { delta: *ts, tc, len }))
            },
            TracePacket::LocalTimestamp2 { ts } => Some(
                Kind::LocalTimestamp(LocalTimestamp { delta: *ts as u32, tc: 0b00, len }),
            ),
            TracePacket::GlobalTimestamp1 { ts, wrap, clkch } => Some(
                Kind::GTS1(GTS1 { bits: *ts as u32, clk_ch: *clkch, len, wrap: *wrap }),
            ),
            TracePacket::GlobalTimestamp2 { ts } => Some(
                Kind::GTS2(GTS2 { bits: *ts, b64: len == 7 }),
            ),
            TracePacket::Extension { page } => Some(
                Kind::StimulusPortPage(StimulusPortPage { page: *page }),
            ),
            TracePacket::Instrumentation { port, payload } => {
                if payload.len() > 4 {
                    return None;
                }
                Some(
                    Kind::Instrumentation(
                        Instrumentation {
                            buffer: pad4(payload),
                            port: *port,
                            size: payload.len() as u8,
                        },
                    ),
                )
            },
            TracePacket::EventCounterWrap { cyc, fold, lsu, sleep, exc, cpi } => {
                let c0 = flag_bit(*cpi, 0b00_0001);
                let c1 = flag_bit(*exc, 0b00_0010);
                let c2 = flag_bit(*sleep, 0b00_0100);
                let c3 = flag_bit(*lsu, 0b00_1000);
                let c4 = flag_bit(*fold, 0b01_0000);
                let c5 = flag_bit(*cyc, 0b10_0000);
                proof {
                    lemma_flags(c0, c1, c2, c3, c4, c5);
                }
                Some(Kind::EventCounter(EventCounter { payload: c0 | c1 | c2 | c3 | c4 | c5 }))
            },
            TracePacket::ExceptionTrace { exception, action } => {
                let function = match action {
                    ExceptionAction::Entered => Function::Enter,
                    ExceptionAction::Exited => Function::Exit,
                    ExceptionAction::Returned => Function::Return,
                };
                Some(
                    Kind::ExceptionTrace(
                        ExceptionTrace { function, number: exception.number() as u16 },
                    ),
                )
            },
            TracePacket::PCSample { pc } => Some(
                Kind::PeriodicPcSample(PeriodicPcSample { pc: *pc }),
            ),
            TracePacket::DataTracePC { comparator, pc } => Some(
                Kind::DataTracePcValue(DataTracePcValue { unit: *comparator, pc: *pc }),
            ),
            TracePacket::DataTraceAddress { comparator, data } => {
                if data.len() != 2 {
                    return None;
                }
                Some(
                    Kind::DataTraceAddress(
                        DataTraceAddress {
                            unit: *comparator,
                            address: read_u16_le(data.as_slice()),
                        },
                    ),
                )
            },
            TracePacket::DataTraceValue { comparator, access_type, value } => {
                if value.len() > 4 {
                    return None;
                }
                let wnr = match access_type {
                    MemoryAccessType::Read => false,
                    MemoryAccessType::Write => true,
                };
                Some(
                    Kind::DataTraceDataValue(
                        DataTraceDataValue {
                            buffer: pad4(value),
                            unit: *comparator,
                            size: value.len() as u8,
                            wnr,
                        },
                    ),
                )
            },
        }
    }
}

} // verus!
