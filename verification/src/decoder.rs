//! The packet decoder: a state machine over the bit buffer.
//!
//! Between packets the decoder expects a header. A header either is a
//! whole packet or leaves a [`PacketStub`] that says how the rest is to be
//! consumed. While the buffer holds too little for what is pending, the
//! decoder keeps the stub and consumes nothing more, so that pushing more
//! bytes resumes the packet. Only a synchronization packet is consumed bit
//! by bit: its zero bits are counted as they come.

use crate::buffer::{
    Buffer, lemma_payload_len, spec_bits_of_bytes, spec_bytes, spec_first_byte, spec_max_bits,
    spec_payload_len,
};
use crate::error::{Error, spec_error_of};
use crate::extract::{extract_timestamp, spec_extract_timestamp};
use crate::hardware::{handle_hardware_source, spec_hardware_source};
use crate::header::{HeaderModel, HeaderVariant, PacketStub, decode_header, spec_decode_header};
use crate::iter::{
    Gts, LocalTimestampOptions, Reducer, Singles, Timestamps, TimestampsConfiguration,
};
use crate::packet::{Kind, Packet, spec_has_kind, spec_kind_of};
use crate::stream::{lemma_step_consumes, lemma_step_wf};
use crate::trace::{MalformedModel, MalformedPacket, PacketModel, SYNC_MIN_ZEROS, TracePacket};
use vstd::prelude::*;
use vstd::slice::slice_to_vec;

verus! {

/// What one pull of the decoder comes to.
pub ghost struct Step {
    /// The packet or the malformation found; `Ok(None)` where the bits
    /// did not suffice.
    pub outcome: Result<Option<PacketModel>, MalformedModel>,
    /// What is pending afterwards.
    pub pending: Option<PacketStub>,
    /// The bits that are left.
    pub rest: Seq<bool>,
}

/// The step that ends a packet.
pub open spec fn spec_emit(outcome: Result<PacketModel, MalformedModel>, rest: Seq<bool>) -> Step {
    Step {
        outcome: match outcome {
            Ok(p) => Ok(Some(p)),
            Err(m) => Err(m),
        },
        pending: None,
        rest,
    }
}

/// The step that waits for more bits with `stub` pending.
pub open spec fn spec_wait(stub: PacketStub, rest: Seq<bool>) -> Step {
    Step { outcome: Ok(None), pending: Some(stub), rest }
}

/// One more zero bit counted.
pub open spec fn spec_count_zero(zeros: usize) -> usize {
    if zeros < usize::MAX {
        (zeros + 1) as usize
    } else {
        zeros
    }
}

/// Inside a synchronization packet with `zeros` zero bits seen: zero
/// bits are counted up to the first set bit, which closes the packet.
pub open spec fn spec_sync(zeros: usize, bits: Seq<bool>) -> Step
    decreases bits.len(),
{
    if bits.len() == 0 {
        spec_wait(PacketStub::Sync(zeros), bits)
    } else if bits[0] {
        if zeros >= SYNC_MIN_ZEROS {
            spec_emit(Ok(PacketModel::Sync), bits.skip(1))
        } else {
            spec_emit(Err(MalformedModel::InvalidSync(zeros)), bits.skip(1))
        }
    } else {
        spec_sync(spec_count_zero(zeros), bits.skip(1))
    }
}

/// The packet that a timestamp payload completes.
pub open spec fn spec_timestamp_packet(stub: PacketStub, payload: Seq<u8>) -> Result<
    PacketModel,
    MalformedModel,
> {
    match stub {
        PacketStub::LocalTimestamp { data_relation } => Ok(
            PacketModel::LocalTimestamp1 {
                ts: spec_extract_timestamp(payload, 27) as u32,
                data_relation,
            },
        ),
        PacketStub::GlobalTimestamp1 => Ok(
            PacketModel::GlobalTimestamp1 {
                ts: spec_extract_timestamp(payload, 25),
                wrap: payload.last() & 0b0100_0000 != 0,
                clkch: payload.last() & 0b0010_0000 != 0,
            },
        ),
        _ => if payload.len() == 4 {
            // 48 bit timestamp
            Ok(PacketModel::GlobalTimestamp2 { ts: spec_extract_timestamp(payload, 21) })
        } else if payload.len() == 6 {
            // 64 bit timestamp
            Ok(PacketModel::GlobalTimestamp2 { ts: spec_extract_timestamp(payload, 37) })
        } else {
            Err(MalformedModel::InvalidGTS2Size { payload })
        },
    }
}

/// With `stub` pending: the rest of the packet is consumed as the stub
/// says, once the bits hold all of it.
pub open spec fn spec_process_stub(stub: PacketStub, bits: Seq<bool>) -> Step {
    match stub {
        PacketStub::Sync(zeros) => spec_sync(zeros, bits),
        PacketStub::Instrumentation { port, expected_size } => if bits.len() < 8
            * expected_size.spec_bytes() {
            spec_wait(stub, bits)
        } else {
            spec_emit(
                Ok(
                    PacketModel::Instrumentation {
                        port,
                        payload: spec_bytes(bits, expected_size.spec_bytes()),
                    },
                ),
                bits.skip(8 * (expected_size.spec_bytes() as int)),
            )
        },
        PacketStub::HardwareSource { disc_id, expected_size } => if bits.len() < 8
            * expected_size.spec_bytes() {
            spec_wait(stub, bits)
        } else {
            spec_emit(
                spec_hardware_source(disc_id, spec_bytes(bits, expected_size.spec_bytes())),
                bits.skip(8 * (expected_size.spec_bytes() as int)),
            )
        },
        _ => match spec_payload_len(bits) {
            Some(n) => spec_emit(
                spec_timestamp_packet(stub, spec_bytes(bits, n)),
                bits.skip(8 * (n as int)),
            ),
            None => spec_wait(stub, bits),
        },
    }
}

/// One pull: with a stub pending the packet goes on; else a header byte
/// is taken, which is a packet, is malformed, or leaves a stub.
pub open spec fn spec_step(pending: Option<PacketStub>, bits: Seq<bool>) -> Step {
    match pending {
        Some(stub) => spec_process_stub(stub, bits),
        None => if bits.len() < 8 {
            Step { outcome: Ok(None), pending: None, rest: bits }
        } else {
            match spec_decode_header(spec_first_byte(bits)) {
                Ok(HeaderModel::Packet(p)) => spec_emit(Ok(p), bits.skip(8)),
                Ok(HeaderModel::Stub(stub)) => spec_process_stub(stub, bits.skip(8)),
                Err(m) => spec_emit(Err(m), bits.skip(8)),
            }
        },
    }
}

/// The view of what a pull returns.
pub open spec fn pull_view(r: Result<Option<TracePacket>, MalformedPacket>) -> Result<
    Option<PacketModel>,
    MalformedModel,
> {
    match r {
        Ok(Some(p)) => Ok(Some(p@)),
        Ok(None) => Ok(None),
        Err(m) => Err(m@),
    }
}

/// ITM/DWT packet protocol decoder.
pub struct Decoder {
    /// The bits pushed and not yet consumed.
    buffer: Buffer,
    /// What the last header left to be consumed.
    pending: Option<PacketStub>,
}

impl Decoder {
    /// The bits pushed and not yet consumed, the next one first.
    pub closed spec fn bits(&self) -> Seq<bool> {
        self.buffer@
    }

    /// The stub of the packet that the decoder is in the middle of, if any.
    pub closed spec fn pending(&self) -> Option<PacketStub> {
        self.pending
    }

    /// Whether what is pending is as a header leaves it. It is so for
    /// a new decoder and stays so.
    pub open spec fn wf(&self) -> bool {
        self.pending() matches Some(stub) ==> stub.wf()
    }

    /// A decoder at a packet boundary, with nothing to decode.
    pub fn new() -> (d: Decoder)
        ensures
            d.bits() == Seq::<bool>::empty(),
            d.pending().is_none(),
    {
        Decoder { buffer: Buffer::new(), pending: None }
    }

    /// The number of bits pushed and not yet consumed.
    pub fn buffered(&self) -> (n: usize)
        ensures
            n == self.bits().len(),
    {
        self.buffer.len()
    }

    /// Whether `bytes` more bytes can be pushed.
    pub fn has_room(&self, bytes: usize) -> (r: bool)
        ensures
            r == (self.bits().len() + 8 * bytes <= spec_max_bits()),
    {
        self.buffer.has_room(bytes)
    }

    /// Pushes trace data into the decoder.
    pub fn push(&mut self, data: Vec<u8>)
        requires
            old(self).bits().len() + 8 * data@.len() <= spec_max_bits(),
        ensures
            final(self).bits() == old(self).bits() + spec_bits_of_bytes(data@),
            final(self).pending() == old(self).pending(),
    {
        self.buffer.feed(data);
    }

    /// Pulls the next packet out of the decoder: `Ok(None)` while the
    /// bytes pushed do not hold a whole packet.
    pub fn pull(&mut self) -> (r: Result<Option<TracePacket>, MalformedPacket>)
        ensures
            pull_view(r) == spec_step(old(self).pending(), old(self).bits()).outcome,
            final(self).pending() == spec_step(old(self).pending(), old(self).bits()).pending,
            final(self).bits() == spec_step(old(self).pending(), old(self).bits()).rest,
            old(self).wf() ==> final(self).wf() && (r matches Ok(Some(packet)) ==> packet@.wf()),
    {
        proof {
            if self.wf() {
                lemma_step_wf(self.pending, self.buffer@);
            }
        }
        if let Some(stub) = self.pending {
            return self.process_stub(stub);
        }
        match self.buffer.pop_byte() {
            None => Ok(None),
            Some(header) => match decode_header(header) {
                Ok(HeaderVariant::Packet(p)) => Ok(Some(p)),
                Ok(HeaderVariant::Stub(stub)) => self.process_stub(stub),
                Err(m) => Err(m),
            },
        }
    }

    /// Returns an iterator over the packets of the decoder.
    pub fn singles(&mut self) -> (s: Singles<'_>)
        ensures
            *s.decoder == *old(self),
            *final(self) == *final(s.decoder),
    {
        Singles::new(self)
    }

    /// Returns an iterator over the batches of the decoder, each under
    /// its timestamp. Local timestamps must be enabled in `options`.
    pub fn timestamps(&mut self, options: TimestampsConfiguration) -> (t: Timestamps<'_>)
        requires
            options.lts_prescaler != LocalTimestampOptions::Disabled,
        ensures
            t.wf(),
            *t.decoder == *old(self),
            *final(self) == *final(t.decoder),
            t.options == options,
            t.reducer() == (Reducer {
                offset: 0,
                gts: Gts { lower: None, upper: None },
                packets: Seq::empty(),
                malformed_packets: Seq::empty(),
                consumed_packets: 0,
            }),
    {
        Timestamps::new(self, options)
    }

    /// Reads zeros from the bitstream until the first bit is set. This
    /// realigns the incoming bitstream for further processing, which may
    /// not be byte-aligned afterwards.
    fn handle_sync(&mut self, seen: usize) -> (r: Result<Option<TracePacket>, MalformedPacket>)
        ensures
            pull_view(r) == spec_sync(seen, old(self).bits()).outcome,
            final(self).pending() == spec_sync(seen, old(self).bits()).pending,
            final(self).bits() == spec_sync(seen, old(self).bits()).rest,
    {
        let mut zeros = seen;
        loop
            invariant
                spec_sync(zeros, self.buffer@) == spec_sync(seen, old(self).buffer@),
            decreases self.buffer@.len(),
        {
            match self.buffer.pop_bit() {
                None => {
                    self.pending = Some(PacketStub::Sync(zeros));
                    return Ok(None);
                },
                Some(true) => {
                    self.pending = None;
                    if zeros >= SYNC_MIN_ZEROS {
                        return Ok(Some(TracePacket::Sync));
                    } else {
                        return Err(MalformedPacket::InvalidSync(zeros));
                    }
                },
                Some(false) => {
                    if zeros < usize::MAX {
                        zeros = zeros + 1;
                    }
                },
            }
        }
    }

    /// Consumes the rest of a packet as `stub` says.
    fn process_stub(&mut self, stub: PacketStub) -> (r: Result<Option<TracePacket>, MalformedPacket>)
        ensures
            pull_view(r) == spec_process_stub(stub, old(self).bits()).outcome,
            final(self).pending() == spec_process_stub(stub, old(self).bits()).pending,
            final(self).bits() == spec_process_stub(stub, old(self).bits()).rest,
    {
        self.pending = Some(stub);
        let done: Result<TracePacket, MalformedPacket> = match stub {
            PacketStub::Sync(zeros) => {
                return self.handle_sync(zeros);
            },
            PacketStub::HardwareSource { disc_id, expected_size } => {
                match self.buffer.pop_bytes(expected_size.bytes()) {
                    Some(payload) => handle_hardware_source(disc_id, payload),
                    None => {
                        return Ok(None);
                    },
                }
            },
            PacketStub::LocalTimestamp { data_relation } => {
                proof {
                    lemma_payload_len(self.buffer@);
                }
                match self.buffer.pop_payload() {
                    Some(payload) => Ok(
                        TracePacket::LocalTimestamp1 {
                            data_relation,
                            // bit 27 is the highest of the timestamp (Appendix D4.2.4)
                            ts: extract_timestamp(payload, 27) as u32,
                        },
                    ),
                    None => {
                        return Ok(None);
                    },
                }
            },
            PacketStub::GlobalTimestamp1 => {
                proof {
                    lemma_payload_len(self.buffer@);
                }
                match self.buffer.pop_payload() {
                    Some(payload) => {
                        let last = payload[payload.len() - 1];
                        Ok(
                            TracePacket::GlobalTimestamp1 {
                                clkch: last & 0b0010_0000 != 0,
                                wrap: last & 0b0100_0000 != 0,
                                // bit 25 is the highest of the timestamp (Appendix D4.2.5)
                                ts: extract_timestamp(payload, 25),
                            },
                        )
                    },
                    None => {
                        return Ok(None);
                    },
                }
            },
            PacketStub::GlobalTimestamp2 => {
                proof {
                    lemma_payload_len(self.buffer@);
                }
                match self.buffer.pop_payload() {
                    Some(payload) => {
                        if payload.len() == 4 {
                            // 48 bit timestamp
                            Ok(TracePacket::GlobalTimestamp2 { ts: extract_timestamp(payload, 47 - 26) })
                        } else if payload.len() == 6 {
                            // 64 bit timestamp
                            Ok(TracePacket::GlobalTimestamp2 { ts: extract_timestamp(payload, 63 - 26) })
                        } else {
                            Err(MalformedPacket::InvalidGTS2Size { payload })
                        }
                    },
                    None => {
                        return Ok(None);
                    },
                }
            },
            PacketStub::Instrumentation { port, expected_size } => {
                match self.buffer.pop_bytes(expected_size.bytes()) {
                    Some(payload) => Ok(TracePacket::Instrumentation { port, payload }),
                    None => {
                        return Ok(None);
                    },
                }
            },
        };
        self.pending = None;
        match done {
            Ok(p) => Ok(Some(p)),
            Err(m) => Err(m),
        }
    }
}


/// The length in bytes of a packet that took the stream from
/// `before` bits to `after` bits, at most 255.
pub open spec fn spec_packet_len(before: nat, after: nat) -> u8 {
    let bytes = (before - after + 7) / 8;
    if bytes > 255 {
        255
    } else {
        bytes as u8
    }
}

/// What decoding a single packet from the bytes `s` comes to, said of
/// the result `r`.
pub open spec fn spec_from_slice(s: Seq<u8>, r: Result<Packet, Error>) -> bool {
    if s.len() == 0 {
        r matches Err(e) && e == Error::EofBeforePacket
    } else {
        let bits = spec_bits_of_bytes(s);
        let step = spec_step(None, bits);
        match step.outcome {
            Ok(None) => r matches Err(e) && e == Error::EofDuringPacket,
            Err(m) => r matches Err(e) && e == spec_error_of(s[0], m),
            Ok(Some(p)) => if spec_has_kind(p) {
                r matches Ok(packet) && packet.header == s[0] && spec_kind_of(
                    packet.kind,
                    p,
                    spec_packet_len(bits.len(), step.rest.len()),
                )
            } else {
                r matches Err(e) && e == (Error::MalformedPacket { header: s[0] })
            },
        }
    }
}

/// Decode a single packet from a slice of bytes.
pub fn from_slice(s: &[u8]) -> (r: Result<Packet, Error>)
    requires
        8 * s@.len() <= spec_max_bits(),
    ensures
        spec_from_slice(s@, r),
{
    if s.len() == 0 {
        return Err(Error::EofBeforePacket);
    }
    let header = s[0];
    let mut decoder = Decoder::new();
    decoder.push(slice_to_vec(s));
    let before = decoder.buffered();
    proof {
        assert(Seq::<bool>::empty() + spec_bits_of_bytes(s@) =~= spec_bits_of_bytes(s@));
        lemma_step_consumes(None, decoder.bits());
    }
    match decoder.pull() {
        Ok(None) => Err(Error::EofDuringPacket),
        Ok(Some(packet)) => {
            let bytes = (before - decoder.buffered() + 7) / 8;
            let len: u8 = if bytes > 255 {
                255
            } else {
                bytes as u8
            };
            match Kind::new(&packet, len) {
                Some(kind) => Ok(Packet { header, kind }),
                None => Err(Error::MalformedPacket { header }),
            }
        },
        Err(MalformedPacket::InvalidHeader(_)) => Err(Error::ReservedHeader { byte: header }),
        Err(MalformedPacket::InvalidHardwareDisc { .. }) => Err(
            Error::ReservedHeader { byte: header },
        ),
        Err(MalformedPacket::InvalidSourcePayload { .. }) => Err(
            Error::ReservedHeader { byte: header },
        ),
        Err(_) => Err(Error::MalformedPacket { header }),
    }
}

} // verus!
