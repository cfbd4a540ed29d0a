//! Iteration over the packets of a decoder, one by one or in batches
//! under a timestamp.
//!
//! The target sends a local timestamp after the data packets that it
//! relates to. [`Timestamps`] therefore gathers packets until a local
//! timestamp arrives and hands them out together with the offset in time
//! from target reset: local timestamps add to the offset, a complete
//! global timestamp sets it.

use crate::decoder::{Decoder, spec_step};
use crate::header::PacketStub;
use crate::stream::lemma_step_consumes;
use crate::trace::{
    MalformedModel, MalformedPacket, PacketModel, TimestampDataRelation, TracePacket,
};
use vstd::arithmetic::power2::{lemma2_to64, lemma2_to64_rest, lemma_pow2_unfold, pow2};
use vstd::prelude::*;

verus! {

/// Iterator that yields [`TracePacket`]s.
pub struct Singles<'a> {
    /// The decoder that the packets come from.
    pub decoder: &'a mut Decoder,
}

impl<'a> Singles<'a> {
    /// An iterator over the packets of `decoder`.
    pub fn new(decoder: &'a mut Decoder) -> (s: Singles<'a>)
        ensures
            *s.decoder == *old(decoder),
            *final(decoder) == *final(s.decoder),
    {
        Singles { decoder }
    }

    /// The next packet, or what was malformed in its place; `None` when
    /// the bytes pushed hold no further whole packet.
    pub fn next(&mut self) -> (r: Option<Result<TracePacket, MalformedPacket>>)
        ensures
            single_view(r) == spec_step(old(self).decoder.pending(), old(self).decoder.bits()).outcome,
            final(self).decoder.pending() == spec_step(
                old(self).decoder.pending(),
                old(self).decoder.bits(),
            ).pending,
            final(self).decoder.bits() == spec_step(
                old(self).decoder.pending(),
                old(self).decoder.bits(),
            ).rest,
            *final(final(self).decoder) == *final(old(self).decoder),
    {
        match self.decoder.pull() {
            Ok(None) => None,
            Ok(Some(trace)) => Some(Ok(trace)),
            Err(m) => Some(Err(m)),
        }
    }
}

/// The view of what [`Singles::next`] returns.
pub open spec fn single_view(r: Option<Result<TracePacket, MalformedPacket>>) -> Result<
    Option<PacketModel>,
    MalformedModel,
> {
    match r {
        Some(Ok(p)) => Ok(Some(p@)),
        Some(Err(m)) => Err(m@),
        None => Ok(None),
    }
}

/// The prescaler of the local timestamp clock.
#[derive(Debug, Clone, Copy, PartialEq, Eq, Structural)]
pub enum LocalTimestampOptions {
    /// Disable local timestamps.
    Disabled,
    /// Enable local timestamps and use no prescaling.
    Enabled,
    /// Enable local timestamps and set the prescaler to divide the
    /// reference clock by 4.
    EnabledDiv4,
    /// Enable local timestamps and set the prescaler to divide the
    /// reference clock by 16.
    EnabledDiv16,
    /// Enable local timestamps and set the prescaler to divide the
    /// reference clock by 64.
    EnabledDiv64,
}

/// [`Timestamps`] configuration.
#[derive(Debug, Clone, Copy, PartialEq, Eq, Structural)]
pub struct TimestampsConfiguration {
    /// Frequency of the ITM timestamp clock, in Hz.
    pub clock_frequency: u32,
    /// Prescaler used for the ITM timestamp clock.
    pub lts_prescaler: LocalTimestampOptions,
    /// When set, malformed packets are put into
    /// [`TimestampedTracePackets::malformed_packets`] instead of being
    /// returned as an error.
    pub expect_malformed: bool,
}

/// Absolute timestamp with associated data relation.
#[derive(Debug, Clone, Copy, PartialEq, Eq, Structural)]
pub struct Timestamp {
    /// Offset in time from target reset that this timestamp denotes, in
    /// nanoseconds.
    pub offset: u64,
    /// In what manner this timestamp relates to the associated data
    /// packets.
    pub data_relation: TimestampDataRelation,
}

/// A set of timestamped [`TracePacket`]s.
#[derive(Debug, Clone, PartialEq)]
pub struct TimestampedTracePackets {
    /// Timestamp of `packets` and `malformed_packets`.
    pub timestamp: Timestamp,
    /// Packets that the target generated during `timestamp`.
    pub packets: Vec<TracePacket>,
    /// Malformed packets that the target generated during `timestamp`.
    pub malformed_packets: Vec<MalformedPacket>,
    /// The number of packets consumed to generate this structure.
    pub consumed_packets: usize,
}

/// The two halves of the global timestamp, as far as they are known.
#[derive(Debug, Clone, Copy, PartialEq, Eq, Structural)]
pub struct Gts {
    /// The lower-order bits, from packets of format 1.
    pub lower: Option<u64>,
    /// The higher-order bits, from packets of format 2.
    pub upper: Option<u64>,
}

/// The number of bits that `x` takes: the position of its highest set
/// bit, counted from 1; for 0 it is 0.
pub open spec fn spec_bit_width(x: u64) -> nat
    decreases x,
{
    if x == 0 {
        0
    } else {
        1 + spec_bit_width(x / 2)
    }
}

/// The lower half after a packet of format 1 with the bits `new`: the
/// new bits take the place of as many low bits of `old` as they are wide,
/// and the higher bits of `old` stay.
pub open spec fn spec_replace_lower(old: u64, new: u64) -> u64 {
    let shift = spec_bit_width(new);
    if shift < 64 {
        ((old >> (shift as u64)) << (shift as u64)) | new
    } else {
        new
    }
}

/// The global timestamp that two halves make up.
pub open spec fn spec_merge(lower: u64, upper: u64) -> u64 {
    (upper << 26) | lower
}

/// A number below two to the power `k` takes no more than `k` bits.
proof fn lemma_bit_width_bound(x: u64, k: nat)
    requires
        x < pow2(k),
    ensures
        spec_bit_width(x) <= k,
    decreases k,
{
    if x != 0 {
        lemma2_to64();
        lemma_pow2_unfold(k);
        lemma_bit_width_bound(x / 2, (k - 1) as nat);
    }
}

/// The number of bits that `x` takes.
fn bit_width(x: u64) -> (r: u32)
    ensures
        r == spec_bit_width(x),
        r <= 64,
{
    let mut rest: u64 = x;
    let mut width: u32 = 0;
    proof {
        lemma2_to64();
        lemma2_to64_rest();
        lemma_bit_width_bound(x, 64);
    }
    while rest != 0
        invariant
            width + spec_bit_width(rest) == spec_bit_width(x),
            spec_bit_width(x) <= 64,
        decreases rest,
    {
        rest = rest / 2;
        width = width + 1;
    }
    width
}

/// Where the lower half is of 26 bits and the upper half of 38, the
/// global timestamp is the upper half times two to the power 26, plus
/// the lower half.
pub proof fn lemma_merge(lower: u64, upper: u64)
    by (bit_vector)
    requires
        lower < 0x400_0000,
        upper < 0x40_0000_0000,
    ensures
        (upper << 26) | lower == upper * 0x400_0000 + lower,
{
}

impl Gts {
    /// The position of the lowest bit of the upper half in the global
    /// timestamp (Appendix D4.2.5).
    pub const GTS2_SHIFT: u32 = 26;

    /// Takes in the bits of a packet of format 1.
    pub fn replace_lower(&mut self, new: u64)
        ensures
            final(self).upper == old(self).upper,
            final(self).lower == Some(
                match old(self).lower {
                    None => new,
                    Some(lower) => spec_replace_lower(lower, new),
                },
            ),
    {
        self.lower = match self.lower {
            None => Some(new),
            Some(old) => {
                let shift = bit_width(new);
                if shift < 64 {
                    Some(((old >> shift) << shift) | new)
                } else {
                    Some(new)
                }
            },
        }
    }

    /// Forgets both halves.
    pub fn reset(&mut self)
        ensures
            final(self).lower.is_none(),
            final(self).upper.is_none(),
    {
        self.lower = None;
        self.upper = None;
    }

    /// The global timestamp, if both halves are known.
    pub open spec fn spec_merge(self) -> Option<u64> {
        match (self.lower, self.upper) {
            (Some(lower), Some(upper)) => Some(spec_merge(lower, upper)),
            _ => None,
        }
    }

    /// The global timestamp, if both halves are known.
    pub fn merge(&self) -> (r: Option<u64>)
        ensures
            r == self.spec_merge(),
    {
        if let (Some(lower), Some(upper)) = (self.lower, self.upper) {
            Some((upper << Self::GTS2_SHIFT) | lower)
        } else {
            None
        }
    }

    /// The state after a packet of format 1 and one of format 2.
    pub fn from_two(gts1: TracePacket, gts2: TracePacket) -> (g: Gts)
        requires
            gts1 is GlobalTimestamp1,
            gts2 is GlobalTimestamp2,
        ensures
            g.lower == Some(gts1->GlobalTimestamp1_ts),
            g.upper == Some(gts2->GlobalTimestamp2_ts),
    {
        let lower = match gts1 {
            TracePacket::GlobalTimestamp1 { ts, .. } => Some(ts),
            _ => None,
        };
        let upper = match gts2 {
            TracePacket::GlobalTimestamp2 { ts } => Some(ts),
            _ => None,
        };
        Gts { lower, upper }
    }

    /// The state after one global timestamp packet, of either format.
    pub fn from_one(gts: TracePacket) -> (g: Gts)
        requires
            gts is GlobalTimestamp1 || gts is GlobalTimestamp2,
        ensures
            gts is GlobalTimestamp1 ==> g.lower == Some(gts->GlobalTimestamp1_ts)
                && g.upper.is_none(),
            gts is GlobalTimestamp2 ==> g.upper == Some(gts->GlobalTimestamp2_ts)
                && g.lower.is_none(),
    {
        match gts {
            TracePacket::GlobalTimestamp1 { ts, .. } => Gts { lower: Some(ts), upper: None },
            TracePacket::GlobalTimestamp2 { ts } => Gts { lower: None, upper: Some(ts) },
            _ => Gts { lower: None, upper: None },
        }
    }
}


/// The factor by which the prescaler stretches a tick of the local
/// timestamp clock; global timestamps come without prescaler.
pub open spec fn spec_prescale(prescaler: Option<LocalTimestampOptions>) -> int {
    match prescaler {
        Some(LocalTimestampOptions::EnabledDiv4) => 4,
        Some(LocalTimestampOptions::EnabledDiv16) => 16,
        Some(LocalTimestampOptions::EnabledDiv64) => 64,
        _ => 1,
    }
}

/// The time in nanoseconds that `ts` ticks take at `freq` Hz, rounded up
/// and at most `u64::MAX`. At 0 Hz no tick ever ends.
pub open spec fn spec_calc_offset(
    ts: u64,
    prescaler: Option<LocalTimestampOptions>,
    freq: u32,
) -> u64 {
    let ticks = ts * spec_prescale(prescaler);
    if freq == 0 {
        if ticks == 0 {
            0
        } else {
            u64::MAX
        }
    } else {
        let nanos = (ticks * 1_000_000_000 + freq - 1) / (freq as int);
        if nanos > u64::MAX {
            u64::MAX
        } else {
            nanos as u64
        }
    }
}

/// The time in nanoseconds that `ts` ticks of a clock of `freq` Hz take
/// behind a prescaler.
pub fn calc_offset(ts: u64, prescaler: Option<LocalTimestampOptions>, freq: u32) -> (nanos: u64)
    requires
        prescaler != Some(LocalTimestampOptions::Disabled),
    ensures
        nanos == spec_calc_offset(ts, prescaler, freq),
{
    let prescale: u128 = match prescaler {
        None | Some(LocalTimestampOptions::Enabled) => 1,
        Some(LocalTimestampOptions::EnabledDiv4) => 4,
        Some(LocalTimestampOptions::EnabledDiv16) => 16,
        _ => 64,
    };
    let ticks: u128 = (ts as u128) * prescale;
    if freq == 0 {
        return if ticks == 0 {
            0
        } else {
            u64::MAX
        };
    }
    // NOTE(ceil) we round up so as to not report an event before it
    // occurs on hardware.
    let nanos: u128 = (ticks * 1_000_000_000 + (freq as u128 - 1)) / (freq as u128);
    if nanos > u64::MAX as u128 {
        u64::MAX
    } else {
        nanos as u64
    }
}

/// A [`TimestampedTracePackets`] as a mathematical value.
pub ghost struct BatchModel {
    pub timestamp: Timestamp,
    pub packets: Seq<PacketModel>,
    pub malformed_packets: Seq<MalformedModel>,
    pub consumed_packets: usize,
}

/// The views of a sequence of packets.
pub open spec fn packets_view(packets: Seq<TracePacket>) -> Seq<PacketModel> {
    packets.map_values(|p: TracePacket| p@)
}

/// The views of a sequence of malformed packets.
pub open spec fn malformed_view(malformed: Seq<MalformedPacket>) -> Seq<MalformedModel> {
    malformed.map_values(|m: MalformedPacket| m@)
}

impl View for TimestampedTracePackets {
    type V = BatchModel;

    open spec fn view(&self) -> BatchModel {
        BatchModel {
            timestamp: self.timestamp,
            packets: packets_view(self.packets@),
            malformed_packets: malformed_view(self.malformed_packets@),
            consumed_packets: self.consumed_packets,
        }
    }
}

/// What a [`Timestamps`] holds between two packets, but for the decoder.
pub ghost struct Reducer {
    /// The offset from target reset of the last timestamp.
    pub offset: u64,
    /// The halves of the global timestamp.
    pub gts: Gts,
    /// The data packets of the batch under way.
    pub packets: Seq<PacketModel>,
    /// The malformed packets of the batch under way.
    pub malformed_packets: Seq<MalformedModel>,
    /// The number of packets consumed for the batch under way.
    pub consumed_packets: usize,
}

/// What one pull of a batch comes to.
pub ghost struct BatchStep {
    /// The batch, or the malformed packet that ended the pull; `Ok(None)`
    /// where the bits ended before a local timestamp.
    pub outcome: Result<Option<BatchModel>, MalformedModel>,
    /// What the iterator holds afterwards.
    pub reducer: Reducer,
    /// What is pending in the decoder afterwards.
    pub pending: Option<PacketStub>,
    /// The bits that are left in the decoder.
    pub rest: Seq<bool>,
}

/// One more packet counted.
pub open spec fn spec_count_packet(consumed: usize) -> usize {
    if consumed < usize::MAX {
        (consumed + 1) as usize
    } else {
        consumed
    }
}

/// The sum of two offsets, at most `u64::MAX`.
pub open spec fn spec_add_offset(a: u64, b: u64) -> u64 {
    if a + b > u64::MAX {
        u64::MAX
    } else {
        (a + b) as u64
    }
}

/// With both halves of the global timestamp known, the offset is set to
/// the time that the global timestamp stands for.
pub open spec fn spec_apply_gts(options: TimestampsConfiguration, r: Reducer) -> Reducer {
    match r.gts.spec_merge() {
        Some(gts) => Reducer { offset: spec_calc_offset(gts, None, options.clock_frequency), ..r },
        None => r,
    }
}

/// The reducer with the batch under way dropped.
pub open spec fn spec_new_batch(r: Reducer) -> Reducer {
    Reducer {
        packets: Seq::empty(),
        malformed_packets: Seq::empty(),
        consumed_packets: 0,
        ..r
    }
}

/// What a packet other than a local timestamp does to the reducer: a
/// global timestamp updates the halves and, once complete, the offset;
/// any other packet joins the batch.
pub open spec fn spec_absorb(
    options: TimestampsConfiguration,
    r: Reducer,
    packet: PacketModel,
) -> Reducer {
    match packet {
        PacketModel::GlobalTimestamp1 { ts, wrap, clkch } => {
            let lower = Some(
                match r.gts.lower {
                    None => ts,
                    Some(lower) => spec_replace_lower(lower, ts),
                },
            );
            if wrap {
                // upper bits have changed; GTS2 incoming
                Reducer { gts: Gts { lower, upper: None }, ..r }
            } else if clkch {
                // system has asserted clock change input; full GTS incoming
                Reducer { gts: Gts { lower: None, upper: None }, ..r }
            } else {
                spec_apply_gts(options, Reducer { gts: Gts { lower, upper: r.gts.upper }, ..r })
            }
        },
        PacketModel::GlobalTimestamp2 { ts } => spec_apply_gts(
            options,
            Reducer { gts: Gts { lower: r.gts.lower, upper: Some(ts) }, ..r },
        ),
        _ => Reducer { packets: r.packets.push(packet), ..r },
    }
}

/// The batch that a local timestamp of `ts` ticks closes.
pub open spec fn spec_close_batch(
    options: TimestampsConfiguration,
    r: Reducer,
    ts: u64,
    data_relation: TimestampDataRelation,
) -> BatchModel {
    BatchModel {
        timestamp: Timestamp {
            offset: spec_add_offset(
                r.offset,
                spec_calc_offset(ts, Some(options.lts_prescaler), options.clock_frequency),
            ),
            data_relation,
        },
        packets: r.packets,
        malformed_packets: r.malformed_packets,
        consumed_packets: r.consumed_packets,
    }
}

/// One pull of a batch: packets are decoded and taken in until a local
/// timestamp closes the batch, a malformed packet ends the pull, or the
/// bits run out.
pub open spec fn spec_next_batch(
    options: TimestampsConfiguration,
    r: Reducer,
    pending: Option<PacketStub>,
    bits: Seq<bool>,
) -> BatchStep
    decreases bits.len(),
{
    let step = spec_step(pending, bits);
    let counted = Reducer { consumed_packets: spec_count_packet(r.consumed_packets), ..r };
    match step.outcome {
        Ok(None) => BatchStep { outcome: Ok(None), reducer: r, pending: step.pending, rest: step.rest },
        Err(m) => if options.expect_malformed {
            proof {
                lemma_step_consumes(pending, bits);
            }
            spec_next_batch(
                options,
                Reducer { malformed_packets: r.malformed_packets.push(m), ..counted },
                step.pending,
                step.rest,
            )
        } else {
            BatchStep {
                outcome: Err(m),
                reducer: spec_new_batch(r),
                pending: step.pending,
                rest: step.rest,
            }
        },
        Ok(Some(PacketModel::LocalTimestamp1 { ts, data_relation })) => {
            let batch = spec_close_batch(options, counted, ts as u64, data_relation);
            BatchStep {
                outcome: Ok(Some(batch)),
                reducer: spec_new_batch(Reducer { offset: batch.timestamp.offset, ..r }),
                pending: step.pending,
                rest: step.rest,
            }
        },
        Ok(Some(PacketModel::LocalTimestamp2 { ts })) => {
            let batch = spec_close_batch(options, counted, ts as u64, TimestampDataRelation::Sync);
            BatchStep {
                outcome: Ok(Some(batch)),
                reducer: spec_new_batch(Reducer { offset: batch.timestamp.offset, ..r }),
                pending: step.pending,
                rest: step.rest,
            }
        },
        Ok(Some(packet)) => {
            proof {
                lemma_step_consumes(pending, bits);
            }
            spec_next_batch(options, spec_absorb(options, counted, packet), step.pending, step.rest)
        },
    }
}

/// Whether no global timestamp on the way to the next batch sets the
/// offset back: each complete global timestamp that the bits hold, up
/// to the local timestamp that closes the batch, stands for a time at or
/// after the offset reached when it arrives.
pub open spec fn spec_in_order(
    options: TimestampsConfiguration,
    r: Reducer,
    pending: Option<PacketStub>,
    bits: Seq<bool>,
) -> bool
    decreases bits.len(),
{
    let step = spec_step(pending, bits);
    let counted = Reducer { consumed_packets: spec_count_packet(r.consumed_packets), ..r };
    match step.outcome {
        Ok(None) => true,
        Err(m) => if options.expect_malformed {
            proof {
                lemma_step_consumes(pending, bits);
            }
            spec_in_order(
                options,
                Reducer { malformed_packets: r.malformed_packets.push(m), ..counted },
                step.pending,
                step.rest,
            )
        } else {
            true
        },
        Ok(Some(PacketModel::LocalTimestamp1 { .. })) => true,
        Ok(Some(PacketModel::LocalTimestamp2 { .. })) => true,
        Ok(Some(packet)) => {
            proof {
                lemma_step_consumes(pending, bits);
            }
            spec_absorb(options, counted, packet).offset >= r.offset && spec_in_order(
                options,
                spec_absorb(options, counted, packet),
                step.pending,
                step.rest,
            )
        },
    }
}

/// Monotone batch timestamps: a pull never sets the offset back, and the
/// batch that it yields is not before the offset at which it began,
/// which is that of the batch before. This holds unless the target sends
/// a global timestamp that lies before the time already reached.
pub proof fn lemma_monotone(
    options: TimestampsConfiguration,
    r: Reducer,
    pending: Option<PacketStub>,
    bits: Seq<bool>,
)
    requires
        spec_in_order(options, r, pending, bits),
    ensures
        spec_next_batch(options, r, pending, bits).reducer.offset >= r.offset,
        spec_next_batch(options, r, pending, bits).outcome matches Ok(Some(batch))
            ==> batch.timestamp.offset >= r.offset && spec_next_batch(
            options,
            r,
            pending,
            bits,
        ).reducer.offset == batch.timestamp.offset,
    decreases bits.len(),
{
    let step = spec_step(pending, bits);
    let counted = Reducer { consumed_packets: spec_count_packet(r.consumed_packets), ..r };
    lemma_step_consumes(pending, bits);
    match step.outcome {
        Ok(None) => {},
        Err(m) => {
            if options.expect_malformed {
                lemma_monotone(
                    options,
                    Reducer { malformed_packets: r.malformed_packets.push(m), ..counted },
                    step.pending,
                    step.rest,
                );
            }
        },
        Ok(Some(PacketModel::LocalTimestamp1 { .. })) => {},
        Ok(Some(PacketModel::LocalTimestamp2 { .. })) => {},
        Ok(Some(packet)) => {
            lemma_monotone(options, spec_absorb(options, counted, packet), step.pending, step.rest);
        },
    }
}

/// Of two batches pulled one after the other, the second is not before
/// the first, under the condition of [`lemma_monotone`] on the second
/// pull.
pub proof fn lemma_batches_in_order(
    options: TimestampsConfiguration,
    r: Reducer,
    pending: Option<PacketStub>,
    bits: Seq<bool>,
)
    requires
        spec_next_batch(options, r, pending, bits).outcome matches Ok(Some(_)),
        spec_in_order(
            options,
            spec_next_batch(options, r, pending, bits).reducer,
            spec_next_batch(options, r, pending, bits).pending,
            spec_next_batch(options, r, pending, bits).rest,
        ),
    ensures
        ({
            let first = spec_next_batch(options, r, pending, bits);
            let second = spec_next_batch(options, first.reducer, first.pending, first.rest);
            second.outcome matches Ok(Some(batch)) ==> first.outcome->Ok_0->Some_0.timestamp.offset
                <= batch.timestamp.offset
        }),
{
    let first = spec_next_batch(options, r, pending, bits);
    lemma_closed_batch(options, r, pending, bits);
    lemma_monotone(options, first.reducer, first.pending, first.rest);
}

/// After a batch the offset is that of the batch.
proof fn lemma_closed_batch(
    options: TimestampsConfiguration,
    r: Reducer,
    pending: Option<PacketStub>,
    bits: Seq<bool>,
)
    ensures
        spec_next_batch(options, r, pending, bits).outcome matches Ok(Some(batch))
            ==> spec_next_batch(options, r, pending, bits).reducer.offset
            == batch.timestamp.offset,
    decreases bits.len(),
{
    let step = spec_step(pending, bits);
    let counted = Reducer { consumed_packets: spec_count_packet(r.consumed_packets), ..r };
    lemma_step_consumes(pending, bits);
    match step.outcome {
        Ok(None) => {},
        Err(m) => {
            if options.expect_malformed {
                lemma_closed_batch(
                    options,
                    Reducer { malformed_packets: r.malformed_packets.push(m), ..counted },
                    step.pending,
                    step.rest,
                );
            }
        },
        Ok(Some(PacketModel::LocalTimestamp1 { .. })) => {},
        Ok(Some(PacketModel::LocalTimestamp2 { .. })) => {},
        Ok(Some(packet)) => {
            lemma_closed_batch(
                options,
                spec_absorb(options, counted, packet),
                step.pending,
                step.rest,
            );
        },
    }
}

/// The view of what a pull of a batch returns.
pub open spec fn batch_view(r: Result<Option<TimestampedTracePackets>, MalformedPacket>) -> Result<
    Option<BatchModel>,
    MalformedModel,
> {
    match r {
        Ok(Some(b)) => Ok(Some(b@)),
        Ok(None) => Ok(None),
        Err(m) => Err(m@),
    }
}

/// Iterator that yields [`TimestampedTracePackets`].
pub struct Timestamps<'a> {
    /// The decoder that the packets come from.
    pub decoder: &'a mut Decoder,
    /// The clock that the timestamps count in.
    pub options: TimestampsConfiguration,
    /// The offset from target reset of the last timestamp, in
    /// nanoseconds.
    pub current_offset: u64,
    /// The halves of the global timestamp.
    pub gts: Gts,
    /// The data packets decoded since the last local timestamp.
    pub packets: Vec<TracePacket>,
    /// The malformed packets met since the last local timestamp.
    pub malformed_packets: Vec<MalformedPacket>,
    /// The number of packets consumed since the last local timestamp.
    pub consumed_packets: usize,
}

impl<'a> Timestamps<'a> {
    /// What the iterator holds, but for the decoder.
    pub open spec fn reducer(&self) -> Reducer {
        Reducer {
            offset: self.current_offset,
            gts: self.gts,
            packets: packets_view(self.packets@),
            malformed_packets: malformed_view(self.malformed_packets@),
            consumed_packets: self.consumed_packets,
        }
    }

    /// Whether the iterator can compute offsets: it needs local
    /// timestamps to be enabled.
    pub open spec fn wf(&self) -> bool {
        self.options.lts_prescaler != LocalTimestampOptions::Disabled
    }

    /// An iterator over the batches of `decoder`, starting at target
    /// reset.
    pub fn new(decoder: &'a mut Decoder, options: TimestampsConfiguration) -> (t: Timestamps<'a>)
        requires
            options.lts_prescaler != LocalTimestampOptions::Disabled,
        ensures
            t.wf(),
            *t.decoder == *old(decoder),
            *final(decoder) == *final(t.decoder),
            t.options == options,
            t.reducer() == (Reducer {
                offset: 0,
                gts: Gts { lower: None, upper: None },
                packets: Seq::empty(),
                malformed_packets: Seq::empty(),
                consumed_packets: 0,
            }),
    {
        let t = Timestamps {
            current_offset: 0,
            decoder,
            options,
            gts: Gts { lower: None, upper: None },
            packets: Vec::new(),
            malformed_packets: Vec::new(),
            consumed_packets: 0,
        };
        proof {
            assert(packets_view(t.packets@) =~= Seq::empty());
            assert(malformed_view(t.malformed_packets@) =~= Seq::empty());
        }
        t
    }

    /// Sets the offset to the global timestamp, once both of its halves
    /// are known.
    fn apply_gts(&mut self)
        ensures
            final(self).reducer() == spec_apply_gts(old(self).options, old(self).reducer()),
            final(self).options == old(self).options,
            *final(self).decoder == *old(self).decoder,
            *final(final(self).decoder) == *final(old(self).decoder),
    {
        if let Some(gts) = self.gts.merge() {
            self.current_offset = calc_offset(gts, None, self.options.clock_frequency);
        }
    }

    /// Adds a local timestamp to the offset and hands out the batch
    /// under way.
    fn apply_lts(&mut self, lts: u64, data_relation: TimestampDataRelation) -> (batch:
        TimestampedTracePackets)
        requires
            old(self).wf(),
        ensures
            batch@ == spec_close_batch(old(self).options, old(self).reducer(), lts, data_relation),
            final(self).reducer() == spec_new_batch(
                Reducer { offset: batch.timestamp.offset, ..old(self).reducer() },
            ),
            final(self).options == old(self).options,
            *final(self).decoder == *old(self).decoder,
            *final(final(self).decoder) == *final(old(self).decoder),
    {
        let offset = calc_offset(lts, Some(self.options.lts_prescaler), self.options.clock_frequency);
        self.current_offset = if offset > u64::MAX - self.current_offset {
            u64::MAX
        } else {
            self.current_offset + offset
        };
        let mut packets: Vec<TracePacket> = Vec::new();
        let mut malformed_packets: Vec<MalformedPacket> = Vec::new();
        core::mem::swap(&mut packets, &mut self.packets);
        core::mem::swap(&mut malformed_packets, &mut self.malformed_packets);
        let consumed_packets = self.consumed_packets;
        self.consumed_packets = 0;
        proof {
            assert(packets_view(self.packets@) =~= Seq::empty());
            assert(malformed_view(self.malformed_packets@) =~= Seq::empty());
        }
        TimestampedTracePackets {
            timestamp: Timestamp { offset: self.current_offset, data_relation },
            packets,
            malformed_packets,
            consumed_packets,
        }
    }

    /// Decodes packets until a local timestamp closes the batch under
    /// way. `Ok(None)` when the bytes pushed end before that: the batch
    /// stays under way. A malformed packet ends the pull and drops the
    /// batch, unless malformed packets are expected.
    pub fn next_timestamped(&mut self) -> (r: Result<
        Option<TimestampedTracePackets>,
        MalformedPacket,
    >)
        requires
            old(self).wf(),
        ensures
            final(self).wf(),
            final(self).options == old(self).options,
            *final(final(self).decoder) == *final(old(self).decoder),
            batch_view(r) == spec_next_batch(
                old(self).options,
                old(self).reducer(),
                old(self).decoder.pending(),
                old(self).decoder.bits(),
            ).outcome,
            final(self).reducer() == spec_next_batch(
                old(self).options,
                old(self).reducer(),
                old(self).decoder.pending(),
                old(self).decoder.bits(),
            ).reducer,
            final(self).decoder.pending() == spec_next_batch(
                old(self).options,
                old(self).reducer(),
                old(self).decoder.pending(),
                old(self).decoder.bits(),
            ).pending,
            final(self).decoder.bits() == spec_next_batch(
                old(self).options,
                old(self).reducer(),
                old(self).decoder.pending(),
                old(self).decoder.bits(),
            ).rest,
    {
        loop
            invariant
                self.wf(),
                self.options == old(self).options,
                *final(self.decoder) == *final(old(self).decoder),
                spec_next_batch(
                    self.options,
                    self.reducer(),
                    self.decoder.pending(),
                    self.decoder.bits(),
                ) == spec_next_batch(
                    old(self).options,
                    old(self).reducer(),
                    old(self).decoder.pending(),
                    old(self).decoder.bits(),
                ),
            decreases self.decoder.bits().len(),
        {
            proof {
                lemma_step_consumes(self.decoder.pending(), self.decoder.bits());
            }
            let ghost before = self.reducer();
            match self.decoder.pull() {
                Ok(None) => {
                    return Ok(None);
                },
                Err(m) => {
                    if !self.options.expect_malformed {
                        self.packets = Vec::new();
                        self.malformed_packets = Vec::new();
                        self.consumed_packets = 0;
                        proof {
                            assert(packets_view(self.packets@) =~= Seq::empty());
                            assert(malformed_view(self.malformed_packets@) =~= Seq::empty());
                        }
                        return Err(m);
                    }
                    self.count_packet();
                    self.malformed_packets.push(m);
                    proof {
                        assert(malformed_view(self.malformed_packets@)
                            =~= before.malformed_packets.push(m@));
                    }
                },
                Ok(Some(packet)) => {
                    self.count_packet();
                    match packet {
                        // A local timestamp: packets received up to this point
                        // relate to this local timestamp. Return these.
                        TracePacket::LocalTimestamp1 { ts, data_relation } => {
                            return Ok(Some(self.apply_lts(ts as u64, data_relation)));
                        },
                        TracePacket::LocalTimestamp2 { ts } => {
                            return Ok(
                                Some(self.apply_lts(ts as u64, TimestampDataRelation::Sync)),
                            );
                        },
                        // A global timestamp: store until we have both the
                        // upper (GTS2) and lower (GTS1) bits.
                        TracePacket::GlobalTimestamp1 { ts, wrap, clkch } => {
                            self.gts.replace_lower(ts);
                            if wrap {
                                // upper bits have changed; GTS2 incoming
                                self.gts.upper = None;
                            } else if clkch {
                                // system has asserted clock change input; full GTS incoming
                                self.gts.reset();
                            } else {
                                self.apply_gts();
                            }
                        },
                        TracePacket::GlobalTimestamp2 { ts } => {
                            self.gts.upper = Some(ts);
                            self.apply_gts();
                        },
                        packet => {
                            self.packets.push(packet);
                            proof {
                                assert(packets_view(self.packets@) =~= before.packets.push(
                                    packet@,
                                ));
                            }
                        },
                    }
                },
            }
        }
    }

    /// Counts one more packet as consumed.
    fn count_packet(&mut self)
        ensures
            final(self).consumed_packets == spec_count_packet(old(self).consumed_packets),
            final(self).options == old(self).options,
            final(self).current_offset == old(self).current_offset,
            final(self).gts == old(self).gts,
            final(self).packets == old(self).packets,
            final(self).malformed_packets == old(self).malformed_packets,
            *final(self).decoder == *old(self).decoder,
            *final(final(self).decoder) == *final(old(self).decoder),
    {
        if self.consumed_packets < usize::MAX {
            self.consumed_packets = self.consumed_packets + 1;
        }
    }

    /// The next batch, or the malformed packet that ended it; `None`
    /// when the bytes pushed end before the next local timestamp.
    pub fn next(&mut self) -> (r: Option<Result<TimestampedTracePackets, MalformedPacket>>)
        requires
            old(self).wf(),
        ensures
            final(self).wf(),
            final(self).options == old(self).options,
            *final(final(self).decoder) == *final(old(self).decoder),
            next_batch_view(r) == spec_next_batch(
                old(self).options,
                old(self).reducer(),
                old(self).decoder.pending(),
                old(self).decoder.bits(),
            ).outcome,
            final(self).reducer() == spec_next_batch(
                old(self).options,
                old(self).reducer(),
                old(self).decoder.pending(),
                old(self).decoder.bits(),
            ).reducer,
            final(self).decoder.pending() == spec_next_batch(
                old(self).options,
                old(self).reducer(),
                old(self).decoder.pending(),
                old(self).decoder.bits(),
            ).pending,
            final(self).decoder.bits() == spec_next_batch(
                old(self).options,
                old(self).reducer(),
                old(self).decoder.pending(),
                old(self).decoder.bits(),
            ).rest,
    {
        match self.next_timestamped() {
            Ok(None) => None,
            Ok(Some(trace)) => Some(Ok(trace)),
            Err(m) => Some(Err(m)),
        }
    }
}

/// The view of what [`Timestamps::next`] returns.
pub open spec fn next_batch_view(
    r: Option<Result<TimestampedTracePackets, MalformedPacket>>,
) -> Result<Option<BatchModel>, MalformedModel> {
    match r {
        Some(Ok(b)) => Ok(Some(b@)),
        Some(Err(m)) => Err(m@),
        None => Ok(None),
    }
}

} // verus!
