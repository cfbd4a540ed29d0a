//! The packets of the protocol and the ways in which one can be malformed.

use vstd::prelude::*;

verus! {

/// The least number of zero bits that a synchronization packet holds
/// before its closing one bit.
pub const SYNC_MIN_ZEROS: usize = 47;

/// Processor core exceptions, by their fixed exception numbers (Table B1-4).
#[derive(Debug, Clone, Copy, PartialEq, Eq, Structural)]
pub enum Exception {
    /// Reset; exception number 1.
    Reset,
    /// Non maskable interrupt; exception number 2.
    NonMaskableInt,
    /// Hard fault; exception number 3.
    HardFault,
    /// Memory management fault; exception number 4.
    MemoryManagement,
    /// Bus fault; exception number 5.
    BusFault,
    /// Usage fault; exception number 6.
    UsageFault,
    /// Supervisor call; exception number 11.
    SVCall,
    /// Debug monitor; exception number 12.
    DebugMonitor,
    /// Pendable service request; exception number 14.
    PendSV,
    /// System tick; exception number 15.
    SysTick,
}

/// What the processor is executing, as an exception trace packet names it.
#[derive(Debug, Clone, Copy, PartialEq, Eq, Structural)]
pub enum VectActive {
    /// Thread mode; exception number 0.
    ThreadMode,
    /// A processor core exception.
    Exception(Exception),
    /// An external interrupt.
    Interrupt {
        /// The exception number that the packet carries, 16 or more.
        irqn: u8,
    },
}

impl VectActive {
    /// The meaning of an exception number, if it has one.
    pub open spec fn spec_from(number: u8) -> Option<VectActive> {
        if number == 0 {
            Some(VectActive::ThreadMode)
        } else if number == 1 {
            Some(VectActive::Exception(Exception::Reset))
        } else if number == 2 {
            Some(VectActive::Exception(Exception::NonMaskableInt))
        } else if number == 3 {
            Some(VectActive::Exception(Exception::HardFault))
        } else if number == 4 {
            Some(VectActive::Exception(Exception::MemoryManagement))
        } else if number == 5 {
            Some(VectActive::Exception(Exception::BusFault))
        } else if number == 6 {
            Some(VectActive::Exception(Exception::UsageFault))
        } else if number == 11 {
            Some(VectActive::Exception(Exception::SVCall))
        } else if number == 12 {
            Some(VectActive::Exception(Exception::DebugMonitor))
        } else if number == 14 {
            Some(VectActive::Exception(Exception::PendSV))
        } else if number == 15 {
            Some(VectActive::Exception(Exception::SysTick))
        } else if number >= 16 {
            Some(VectActive::Interrupt { irqn: number })
        } else {
            None
        }
    }

    /// The exception number that stands for `self`.
    pub open spec fn spec_number(self) -> u8 {
        match self {
            VectActive::ThreadMode => 0,
            VectActive::Exception(Exception::Reset) => 1,
            VectActive::Exception(Exception::NonMaskableInt) => 2,
            VectActive::Exception(Exception::HardFault) => 3,
            VectActive::Exception(Exception::MemoryManagement) => 4,
            VectActive::Exception(Exception::BusFault) => 5,
            VectActive::Exception(Exception::UsageFault) => 6,
            VectActive::Exception(Exception::SVCall) => 11,
            VectActive::Exception(Exception::DebugMonitor) => 12,
            VectActive::Exception(Exception::PendSV) => 14,
            VectActive::Exception(Exception::SysTick) => 15,
            VectActive::Interrupt { irqn } => irqn,
        }
    }

    /// Whether `self` is a value that some exception number stands for.
    pub open spec fn wf(self) -> bool {
        self matches VectActive::Interrupt { irqn } ==> irqn >= 16
    }

    /// Reads an exception number. Numbers 7 to 10 and 13 are reserved and
    /// give `None`.
    pub fn from(number: u8) -> (r: Option<VectActive>)
        ensures
            r == Self::spec_from(number),
    {
        match number {
            0 => Some(VectActive::ThreadMode),
            1 => Some(VectActive::Exception(Exception::Reset)),
            2 => Some(VectActive::Exception(Exception::NonMaskableInt)),
            3 => Some(VectActive::Exception(Exception::HardFault)),
            4 => Some(VectActive::Exception(Exception::MemoryManagement)),
            5 => Some(VectActive::Exception(Exception::BusFault)),
            6 => Some(VectActive::Exception(Exception::UsageFault)),
            11 => Some(VectActive::Exception(Exception::SVCall)),
            12 => Some(VectActive::Exception(Exception::DebugMonitor)),
            14 => Some(VectActive::Exception(Exception::PendSV)),
            15 => Some(VectActive::Exception(Exception::SysTick)),
            7 | 8 | 9 | 10 | 13 => None,
            irqn => Some(VectActive::Interrupt { irqn }),
        }
    }

    /// The exception number that stands for `self`.
    pub fn number(&self) -> (n: u8)
        ensures
            n == self.spec_number(),
    {
        match self {
            VectActive::ThreadMode => 0,
            VectActive::Exception(Exception::Reset) => 1,
            VectActive::Exception(Exception::NonMaskableInt) => 2,
            VectActive::Exception(Exception::HardFault) => 3,
            VectActive::Exception(Exception::MemoryManagement) => 4,
            VectActive::Exception(Exception::BusFault) => 5,
            VectActive::Exception(Exception::UsageFault) => 6,
            VectActive::Exception(Exception::SVCall) => 11,
            VectActive::Exception(Exception::DebugMonitor) => 12,
            VectActive::Exception(Exception::PendSV) => 14,
            VectActive::Exception(Exception::SysTick) => 15,
            VectActive::Interrupt { irqn } => *irqn,
        }
    }
}

/// Reading an exception number and taking the number of what was read
/// gives the number back; the other way round it gives the value back.
pub proof fn lemma_vect_active_number(number: u8, v: VectActive)
    ensures
        VectActive::spec_from(number) matches Some(w) ==> w.spec_number() == number && w.wf(),
        v.wf() ==> VectActive::spec_from(v.spec_number()) == Some(v),
{
}

/// Denotes the action taken by the processor by a given exception (Table D4-6).
#[derive(Debug, Clone, Copy, PartialEq, Eq, Structural)]
pub enum ExceptionAction {
    /// Exception was entered.
    Entered,
    /// Exception was exited.
    Exited,
    /// Exception was returned to.
    Returned,
}

/// Denotes the type of memory access.
#[derive(Debug, Clone, Copy, PartialEq, Eq, Structural)]
pub enum MemoryAccessType {
    /// Memory was read.
    Read,
    /// Memory was written.
    Write,
}

/// Indicates the relationship between the generation of the local
/// timestamp packet and the corresponding ITM or DWT data packet
/// (Appendix D4.2.4).
#[derive(Debug, Clone, Copy, PartialEq, Eq, Structural)]
pub enum TimestampDataRelation {
    /// The local timestamp value is synchronous to the corresponding
    /// ITM or DWT data.
    Sync,
    /// The local timestamp value is delayed relative to the ITM or DWT
    /// data.
    UnknownDelay,
    /// Output of the ITM or DWT packet corresponding to this local
    /// timestamp packet is delayed relative to the associated event.
    AssocEventDelay,
    /// Both of the delays above.
    UnknownAssocEventDelay,
}

/// The set of valid packet types that can be decoded.
#[allow(inconsistent_fields)]
#[derive(Debug, Clone, PartialEq)]
pub enum TracePacket {
    /// A synchronization packet is a unique pattern in the bitstream
    /// (Appendix D4.2.1).
    Sync,
    /// An output buffer or the local timestamp counter has overflowed
    /// (Appendix D4.2.3).
    Overflow,
    /// A delta timestamp that measures the interval since the
    /// generation of the last local timestamp (Appendix D4.2.4).
    LocalTimestamp1 {
        /// Timestamp value, of 27 bits.
        ts: u32,
        /// How `ts` relates to the corresponding data packet.
        data_relation: TimestampDataRelation,
    },
    /// A derivative of `LocalTimestamp1` for timestamp values between
    /// 1 and 6. Always synchronous to the associated data.
    LocalTimestamp2 {
        /// Timestamp value.
        ts: u8,
    },
    /// The lower-order bits of an absolute timestamp (Appendix D4.2.5).
    GlobalTimestamp1 {
        /// Lower-order bits of the timestamp; bits\[25:0\].
        ts: u64,
        /// Set if higher order bits output by the last GTS2 have changed.
        wrap: bool,
        /// Set if the system has asserted a clock change input to the
        /// processor since the last generated global timestamp.
        clkch: bool,
    },
    /// The higher-order bits of an absolute timestamp (Appendix D4.2.5).
    GlobalTimestamp2 {
        /// Higher-order bits of the timestamp value; bits\[63:26\] or
        /// bits\[47:26\] depending on implementation.
        ts: u64,
    },
    /// The stimulus port page on which a payload was written
    /// (Appendix D4.2.6).
    Extension {
        /// Source port page number.
        page: u8,
    },
    /// Contains the payload written to the ITM stimulus ports.
    Instrumentation {
        /// Stimulus port number.
        port: u8,
        /// Instrumentation data written to the stimulus port, in
        /// stream order.
        payload: Vec<u8>,
    },
    /// One or more event counters have wrapped (Appendix D4.3.1).
    EventCounterWrap {
        /// POSTCNT wrap.
        cyc: bool,
        /// FOLDCNT wrap.
        fold: bool,
        /// LSUCNT wrap.
        lsu: bool,
        /// SLEEPCNT wrap.
        sleep: bool,
        /// EXCCNT wrap.
        exc: bool,
        /// CPICNT wrap.
        cpi: bool,
    },
    /// The processor has entered, exited, or returned to an exception
    /// (Appendix D4.3.2).
    ExceptionTrace {
        /// The exception in question.
        exception: VectActive,
        /// What the processor did with it.
        action: ExceptionAction,
    },
    /// Periodic PC sample (Appendix D4.3.3).
    PCSample {
        /// The value of the PC. `None` if periodic PC sleep packet.
        pc: Option<u32>,
    },
    /// A DWT comparator matched a PC value (Appendix D4.3.4).
    DataTracePC {
        /// The comparator number that generated the data.
        comparator: u8,
        /// The PC value for the instruction that caused the successful
        /// address comparison.
        pc: u32,
    },
    /// A DWT comparator matched an address (Appendix D4.3.4).
    DataTraceAddress {
        /// The comparator number that generated the data.
        comparator: u8,
        /// Data address content; bits\[15:0\], in stream order.
        data: Vec<u8>,
    },
    /// A data trace packet with a value (Appendix D4.3.4).
    DataTraceValue {
        /// The comparator number that generated the data.
        comparator: u8,
        /// Whether the data was read or written.
        access_type: MemoryAccessType,
        /// The data value, in stream order.
        value: Vec<u8>,
    },
}

/// A [`TracePacket`] as a mathematical value: byte vectors are sequences.
#[allow(inconsistent_fields)]
pub ghost enum PacketModel {
    Sync,
    Overflow,
    LocalTimestamp1 { ts: u32, data_relation: TimestampDataRelation },
    LocalTimestamp2 { ts: u8 },
    GlobalTimestamp1 { ts: u64, wrap: bool, clkch: bool },
    GlobalTimestamp2 { ts: u64 },
    Extension { page: u8 },
    Instrumentation { port: u8, payload: Seq<u8> },
    EventCounterWrap { cyc: bool, fold: bool, lsu: bool, sleep: bool, exc: bool, cpi: bool },
    ExceptionTrace { exception: VectActive, action: ExceptionAction },
    PCSample { pc: Option<u32> },
    DataTracePC { comparator: u8, pc: u32 },
    DataTraceAddress { comparator: u8, data: Seq<u8> },
    DataTraceValue { comparator: u8, access_type: MemoryAccessType, value: Seq<u8> },
}

impl PacketModel {
    /// What holds of every packet that the decoder yields: the fields
    /// are within the ranges of the protocol, and a payload has the size
    /// that the header asked for.
    pub open spec fn wf(self) -> bool {
        match self {
            PacketModel::LocalTimestamp2 { ts } => 1 <= ts <= 6,
            PacketModel::GlobalTimestamp2 { ts } => ts < 0x40_0000_0000,
            PacketModel::Extension { page } => page <= 7,
            PacketModel::Instrumentation { port, payload } => port <= 31 && (payload.len() == 1
                || payload.len() == 2 || payload.len() == 4),
            PacketModel::ExceptionTrace { exception, .. } => exception.wf(),
            PacketModel::DataTracePC { comparator, .. } => comparator <= 3,
            PacketModel::DataTraceAddress { comparator, data } => comparator <= 3 && data.len()
                == 2,
            PacketModel::DataTraceValue { comparator, value, .. } => comparator <= 3 && (
            value.len() == 1 || value.len() == 2 || value.len() == 4),
            _ => true,
        }
    }
}

impl View for TracePacket {
    type V = PacketModel;

    open spec fn view(&self) -> PacketModel {
        match *self {
            TracePacket::Sync => PacketModel::Sync,
            TracePacket::Overflow => PacketModel::Overflow,
            TracePacket::LocalTimestamp1 { ts, data_relation } => PacketModel::LocalTimestamp1 {
                ts,
                data_relation,
            },
            TracePacket::LocalTimestamp2 { ts } => PacketModel::LocalTimestamp2 { ts },
            TracePacket::GlobalTimestamp1 { ts, wrap, clkch } => PacketModel::GlobalTimestamp1 {
                ts,
                wrap,
                clkch,
            },
            TracePacket::GlobalTimestamp2 { ts } => PacketModel::GlobalTimestamp2 { ts },
            TracePacket::Extension { page } => PacketModel::Extension { page },
            TracePacket::Instrumentation { port, payload } => PacketModel::Instrumentation {
                port,
                payload: payload@,
            },
            TracePacket::EventCounterWrap {
                cyc,
                fold,
                lsu,
                sleep,
                exc,
                cpi,
            } => PacketModel::EventCounterWrap { cyc, fold, lsu, sleep, exc, cpi },
            TracePacket::ExceptionTrace { exception, action } => PacketModel::ExceptionTrace {
                exception,
                action,
            },
            TracePacket::PCSample { pc } => PacketModel::PCSample { pc },
            TracePacket::DataTracePC { comparator, pc } => PacketModel::DataTracePC {
                comparator,
                pc,
            },
            TracePacket::DataTraceAddress { comparator, data } => PacketModel::DataTraceAddress {
                comparator,
                data: data@,
            },
            TracePacket::DataTraceValue {
                comparator,
                access_type,
                value,
            } => PacketModel::DataTraceValue { comparator, access_type, value: value@ },
        }
    }
}

/// Set of malformed [`TracePacket`]s that can occur during decode.
#[allow(inconsistent_fields)]
#[derive(Debug, Clone, PartialEq)]
pub enum MalformedPacket {
    /// Header is invalid and cannot be decoded.
    InvalidHeader(u8),
    /// The payload of a hardware source packet is of the wrong size for
    /// its discriminator, or its data-trace fields do not go together.
    InvalidHardwarePacket {
        /// The discriminator ID.
        disc_id: u8,
        /// Associated payload, in stream order.
        payload: Vec<u8>,
    },
    /// The type discriminator ID in the hardware source packet header
    /// is invalid.
    InvalidHardwareDisc {
        /// The discriminator ID.
        disc_id: u8,
        /// The size field of the header.
        size: usize,
    },
    /// An exception trace packet refers to an invalid action or an
    /// invalid exception number.
    InvalidExceptionTrace {
        /// The exception number.
        exception: u16,
        /// Numerical representation of the function associated with the
        /// exception number.
        function: u8,
    },
    /// The payload length of a PCSample packet is invalid.
    InvalidPCSampleSize {
        /// The payload constituting the PC value, of invalid size.
        payload: Vec<u8>,
    },
    /// The GlobalTimestamp2 packet does not contain a 48-bit or 64-bit
    /// timestamp.
    InvalidGTS2Size {
        /// The payload constituting the timestamp, of invalid size.
        payload: Vec<u8>,
    },
    /// The number of zeroes in the Synchronization packet is less than 47.
    InvalidSync(usize),
    /// A source packet (from software or hardware) contains an invalid
    /// expected payload size.
    InvalidSourcePayload {
        /// The header which contains the invalid payload size.
        header: u8,
        /// The invalid payload size (Appendix D4.2.8, Table D4-4).
        size: u8,
    },
}

/// A [`MalformedPacket`] as a mathematical value.
#[allow(inconsistent_fields)]
pub ghost enum MalformedModel {
    InvalidHeader(u8),
    InvalidHardwarePacket { disc_id: u8, payload: Seq<u8> },
    InvalidHardwareDisc { disc_id: u8, size: usize },
    InvalidExceptionTrace { exception: u16, function: u8 },
    InvalidPCSampleSize { payload: Seq<u8> },
    InvalidGTS2Size { payload: Seq<u8> },
    InvalidSync(usize),
    InvalidSourcePayload { header: u8, size: u8 },
}

impl View for MalformedPacket {
    type V = MalformedModel;

    open spec fn view(&self) -> MalformedModel {
        match *self {
            MalformedPacket::InvalidHeader(h) => MalformedModel::InvalidHeader(h),
            MalformedPacket::InvalidHardwarePacket { disc_id, payload } => {
                MalformedModel::InvalidHardwarePacket { disc_id, payload: payload@ }
            },
            MalformedPacket::InvalidHardwareDisc { disc_id, size } => {
                MalformedModel::InvalidHardwareDisc { disc_id, size }
            },
            MalformedPacket::InvalidExceptionTrace { exception, function } => {
                MalformedModel::InvalidExceptionTrace { exception, function }
            },
            MalformedPacket::InvalidPCSampleSize { payload } => {
                MalformedModel::InvalidPCSampleSize { payload: payload@ }
            },
            MalformedPacket::InvalidGTS2Size { payload } => {
                MalformedModel::InvalidGTS2Size { payload: payload@ }
            },
            MalformedPacket::InvalidSync(n) => MalformedModel::InvalidSync(n),
            MalformedPacket::InvalidSourcePayload { header, size } => {
                MalformedModel::InvalidSourcePayload { header, size }
            },
        }
    }
}

/// The view of a decoding result: of the packet, or of what was malformed.
pub open spec fn result_view(r: Result<TracePacket, MalformedPacket>) -> Result<
    PacketModel,
    MalformedModel,
> {
    match r {
        Ok(p) => Ok(p@),
        Err(m) => Err(m@),
    }
}

} // verus!
