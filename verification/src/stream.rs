//! What holds of decoding a stream, whatever the stream: a step takes
//! bits from the front, framing is found again after a malformed packet,
//! a packet cut in two is decoded as if it had come whole, and
//! synchronization and timestamp packets take the bits that the protocol
//! gives them.

use crate::buffer::{lemma_payload_len, spec_bytes, spec_continues, spec_first_byte, spec_payload_len};
use crate::decoder::{spec_count_zero, spec_emit, spec_process_stub, spec_step, spec_sync};
use crate::extract::lemma_timestamp_bounds;
use crate::hardware::{lemma_hardware_wf, spec_hardware_source};
use crate::header::{HeaderModel, PacketStub, lemma_header_wf, spec_decode_header};
use crate::trace::{MalformedModel, PacketModel, SYNC_MIN_ZEROS};
use vstd::prelude::*;

verus! {

/// Inside a synchronization packet a step takes bits from the front,
/// and at least one where it does not end waiting.
proof fn lemma_sync_consumes(zeros: usize, bits: Seq<bool>)
    ensures
        spec_sync(zeros, bits).rest.len() <= bits.len(),
        spec_sync(zeros, bits).rest == bits.skip(bits.len() - spec_sync(zeros, bits).rest.len()),
        spec_sync(zeros, bits).outcome != Ok::<Option<PacketModel>, MalformedModel>(None)
            ==> spec_sync(zeros, bits).rest.len() < bits.len(),
    decreases bits.len(),
{
    if bits.len() == 0 {
        assert(bits.skip(0) =~= bits);
    } else if bits[0] {
    } else {
        let tail = bits.skip(1);
        lemma_sync_consumes(spec_count_zero(zeros), tail);
        let rest = spec_sync(zeros, bits).rest;
        assert(tail.skip(tail.len() - rest.len()) =~= bits.skip(bits.len() - rest.len()));
    }
}

/// A step takes bits from the front of the stream, and at least one
/// where it does not end waiting.
pub proof fn lemma_step_consumes(pending: Option<PacketStub>, bits: Seq<bool>)
    ensures
        spec_step(pending, bits).rest.len() <= bits.len(),
        spec_step(pending, bits).rest == bits.skip(
            bits.len() - spec_step(pending, bits).rest.len(),
        ),
        spec_step(pending, bits).outcome != Ok::<Option<PacketModel>, MalformedModel>(None)
            ==> spec_step(pending, bits).rest.len() < bits.len(),
{
    match pending {
        Some(stub) => {
            lemma_stub_consumes(stub, bits);
        },
        None => {
            if bits.len() < 8 {
                assert(bits.skip(0) =~= bits);
            } else {
                let tail = bits.skip(8);
                match spec_decode_header(spec_first_byte(bits)) {
                    Ok(HeaderModel::Stub(stub)) => {
                        lemma_stub_consumes(stub, tail);
                        let rest = spec_step(pending, bits).rest;
                        assert(tail.skip(tail.len() - rest.len()) =~= bits.skip(
                            bits.len() - rest.len(),
                        ));
                    },
                    _ => {},
                }
            }
        },
    }
}

/// With a stub pending a step takes bits from the front, and at least
/// one where it does not end waiting.
proof fn lemma_stub_consumes(stub: PacketStub, bits: Seq<bool>)
    ensures
        spec_process_stub(stub, bits).rest.len() <= bits.len(),
        spec_process_stub(stub, bits).rest == bits.skip(
            bits.len() - spec_process_stub(stub, bits).rest.len(),
        ),
        spec_process_stub(stub, bits).outcome != Ok::<Option<PacketModel>, MalformedModel>(None)
            ==> spec_process_stub(stub, bits).rest.len() < bits.len(),
{
    assert(bits.skip(0) =~= bits);
    match stub {
        PacketStub::Sync(zeros) => {
            lemma_sync_consumes(zeros, bits);
        },
        PacketStub::Instrumentation { port, expected_size } => {},
        PacketStub::HardwareSource { disc_id, expected_size } => {},
        _ => {
            lemma_payload_len(bits);
        },
    }
}

/// What the decoder yields and what it keeps pending are within the
/// ranges of the protocol, provided that what was pending is.
pub proof fn lemma_step_wf(pending: Option<PacketStub>, bits: Seq<bool>)
    requires
        pending matches Some(stub) ==> stub.wf(),
    ensures
        spec_step(pending, bits).pending matches Some(stub) ==> stub.wf(),
        spec_step(pending, bits).outcome matches Ok(Some(packet)) ==> packet.wf(),
{
    match pending {
        Some(stub) => {
            lemma_stub_wf(stub, bits);
        },
        None => {
            if bits.len() >= 8 {
                lemma_header_wf(spec_first_byte(bits));
                match spec_decode_header(spec_first_byte(bits)) {
                    Ok(HeaderModel::Stub(stub)) => {
                        lemma_stub_wf(stub, bits.skip(8));
                    },
                    _ => {},
                }
            }
        },
    }
}

proof fn lemma_stub_wf(stub: PacketStub, bits: Seq<bool>)
    requires
        stub.wf(),
    ensures
        spec_process_stub(stub, bits).pending matches Some(s) ==> s.wf(),
        spec_process_stub(stub, bits).outcome matches Ok(Some(packet)) ==> packet.wf(),
{
    match stub {
        PacketStub::Sync(zeros) => {
            lemma_sync_wf(zeros, bits);
        },
        PacketStub::Instrumentation { .. } => {},
        PacketStub::HardwareSource { disc_id, expected_size } => {
            if bits.len() >= 8 * expected_size.spec_bytes() {
                lemma_hardware_wf(disc_id, spec_bytes(bits, expected_size.spec_bytes()));
            }
        },
        _ => {
            if let Some(n) = spec_payload_len(bits) {
                lemma_timestamp_bounds(spec_bytes(bits, n));
            }
        },
    }
}

proof fn lemma_sync_wf(zeros: usize, bits: Seq<bool>)
    ensures
        spec_sync(zeros, bits).pending matches Some(s) ==> s.wf(),
        spec_sync(zeros, bits).outcome matches Ok(Some(packet)) ==> packet.wf(),
    decreases bits.len(),
{
    if bits.len() > 0 && !bits[0] {
        lemma_sync_wf(spec_count_zero(zeros), bits.skip(1));
    }
}

/// The first `n` outcomes of decoding `bits` with `pending` pending:
/// the packets and malformations in stream order, up to where the bits
/// do not suffice.
pub open spec fn spec_decode(pending: Option<PacketStub>, bits: Seq<bool>, n: nat) -> Seq<
    Result<PacketModel, MalformedModel>,
>
    decreases n,
{
    let step = spec_step(pending, bits);
    if n == 0 {
        Seq::empty()
    } else {
        match step.outcome {
            Ok(None) => Seq::empty(),
            Ok(Some(p)) => seq![Ok(p)] + spec_decode(step.pending, step.rest, (n - 1) as nat),
            Err(m) => seq![Err(m)] + spec_decode(step.pending, step.rest, (n - 1) as nat),
        }
    }
}

/// Framing reset: after a malformed packet, and after a packet, the
/// decoder stands at a packet boundary. What it decodes from then on is
/// what a new decoder decodes from the bits that are left.
pub proof fn lemma_framing_reset(pending: Option<PacketStub>, bits: Seq<bool>, n: nat)
    requires
        spec_step(pending, bits).outcome != Ok::<Option<PacketModel>, MalformedModel>(None),
    ensures
        spec_step(pending, bits).pending.is_none(),
        spec_decode(spec_step(pending, bits).pending, spec_step(pending, bits).rest, n)
            == spec_decode(None, spec_step(pending, bits).rest, n),
{
    match pending {
        Some(stub) => {
            lemma_stub_ends(stub, bits);
        },
        None => {
            if bits.len() >= 8 {
                match spec_decode_header(spec_first_byte(bits)) {
                    Ok(HeaderModel::Stub(stub)) => {
                        lemma_stub_ends(stub, bits.skip(8));
                    },
                    _ => {},
                }
            }
        },
    }
}

/// With a stub pending, a step either waits or ends the packet.
proof fn lemma_stub_ends(stub: PacketStub, bits: Seq<bool>)
    ensures
        spec_process_stub(stub, bits).outcome != Ok::<Option<PacketModel>, MalformedModel>(None)
            ==> spec_process_stub(stub, bits).pending.is_none(),
{
    if let PacketStub::Sync(zeros) = stub {
        lemma_sync_ends(zeros, bits);
    }
}

proof fn lemma_sync_ends(zeros: usize, bits: Seq<bool>)
    ensures
        spec_sync(zeros, bits).outcome != Ok::<Option<PacketModel>, MalformedModel>(None)
            ==> spec_sync(zeros, bits).pending.is_none(),
    decreases bits.len(),
{
    if bits.len() > 0 && !bits[0] {
        lemma_sync_ends(spec_count_zero(zeros), bits.skip(1));
    }
}

/// A header that begins no packet is malformed by itself: the step takes
/// the header byte and nothing of what follows.
pub proof fn lemma_reserved_header(bits: Seq<bool>)
    requires
        bits.len() >= 8,
        spec_decode_header(spec_first_byte(bits)) is Err,
    ensures
        spec_step(None, bits) == spec_emit(
            Err(spec_decode_header(spec_first_byte(bits))->Err_0),
            bits.skip(8),
        ),
        spec_decode_header(spec_first_byte(bits))->Err_0 is InvalidHardwareDisc
            || spec_decode_header(spec_first_byte(bits))->Err_0 is InvalidSourcePayload,
{
}

/// Resumption: a step that ends waiting has lost nothing. With more
/// bits behind the bits that are left, the decoder does what it would
/// have done with all the bits at once.
pub proof fn lemma_resume(pending: Option<PacketStub>, bits: Seq<bool>, more: Seq<bool>)
    requires
        spec_step(pending, bits).outcome == Ok::<Option<PacketModel>, MalformedModel>(None),
    ensures
        spec_step(spec_step(pending, bits).pending, spec_step(pending, bits).rest + more)
            == spec_step(pending, bits + more),
{
    match pending {
        Some(stub) => {
            lemma_stub_resume(stub, bits, more);
        },
        None => {
            if bits.len() >= 8 {
                assert(spec_first_byte(bits + more) == spec_first_byte(bits));
                assert((bits + more).skip(8) =~= bits.skip(8) + more);
                match spec_decode_header(spec_first_byte(bits)) {
                    Ok(HeaderModel::Stub(stub)) => {
                        lemma_stub_resume(stub, bits.skip(8), more);
                    },
                    _ => {},
                }
            }
        },
    }
}

proof fn lemma_stub_resume(stub: PacketStub, bits: Seq<bool>, more: Seq<bool>)
    requires
        spec_process_stub(stub, bits).outcome == Ok::<Option<PacketModel>, MalformedModel>(None),
    ensures
        spec_process_stub(stub, bits).pending matches Some(kept) && spec_process_stub(
            kept,
            spec_process_stub(stub, bits).rest + more,
        ) == spec_process_stub(stub, bits + more),
{
    if let PacketStub::Sync(zeros) = stub {
        lemma_sync_resume(zeros, bits, more);
    }
}

proof fn lemma_sync_resume(zeros: usize, bits: Seq<bool>, more: Seq<bool>)
    requires
        spec_sync(zeros, bits).outcome == Ok::<Option<PacketModel>, MalformedModel>(None),
    ensures
        spec_sync(zeros, bits).pending matches Some(PacketStub::Sync(counted)) && spec_sync(
            counted,
            spec_sync(zeros, bits).rest + more,
        ) == spec_sync(zeros, bits + more),
    decreases bits.len(),
{
    if bits.len() == 0 {
        assert(bits + more =~= more);
    } else {
        assert((bits + more).skip(1) =~= bits.skip(1) + more);
        lemma_sync_resume(spec_count_zero(zeros), bits.skip(1), more);
    }
}

/// `n` zero bits.
pub open spec fn spec_zeros(n: nat) -> Seq<bool> {
    Seq::new(n, |i: int| false)
}

/// Inside a synchronization packet with `seen` zero bits counted, `more`
/// zero bits and a set bit end the packet: with a synchronization where
/// the zero bits are 47 or more in all, malformed with their number
/// where they are fewer.
pub proof fn lemma_sync_run(seen: usize, more: nat, rest: Seq<bool>)
    ensures
        seen + more >= SYNC_MIN_ZEROS ==> spec_sync(seen, spec_zeros(more) + seq![true] + rest)
            == spec_emit(Ok(PacketModel::Sync), rest),
        seen + more < SYNC_MIN_ZEROS ==> spec_sync(seen, spec_zeros(more) + seq![true] + rest)
            == spec_emit(Err(MalformedModel::InvalidSync((seen + more) as usize)), rest),
    decreases more,
{
    let bits = spec_zeros(more) + seq![true] + rest;
    if more == 0 {
        assert(bits.skip(1) =~= rest);
    } else {
        assert(bits.skip(1) =~= spec_zeros((more - 1) as nat) + seq![true] + rest);
        lemma_sync_run(spec_count_zero(seen), (more - 1) as nat, rest);
    }
}

/// Sync threshold: at a packet boundary, `zeros` zero bits and a set bit
/// are a synchronization packet where the zero bits are 47 or more, and
/// are malformed with their number where they are fewer. (Fewer than 8
/// zero bits do not make up the header of a synchronization packet.)
pub proof fn lemma_sync_threshold(zeros: nat, rest: Seq<bool>)
    requires
        zeros >= 8,
    ensures
        zeros >= SYNC_MIN_ZEROS ==> spec_step(None, spec_zeros(zeros) + seq![true] + rest)
            == spec_emit(Ok(PacketModel::Sync), rest),
        zeros < SYNC_MIN_ZEROS ==> spec_step(None, spec_zeros(zeros) + seq![true] + rest)
            == spec_emit(Err(MalformedModel::InvalidSync(zeros as usize)), rest),
{
    let bits = spec_zeros(zeros) + seq![true] + rest;
    assert(spec_first_byte(bits) == 0);
    assert(bits.skip(8) =~= spec_zeros((zeros - 8) as nat) + seq![true] + rest);
    lemma_sync_run(8, (zeros - 8) as nat, rest);
}

/// Inside a synchronization packet with `seen` zero bits counted, a step
/// that ends with a synchronization has taken zero bits and a set bit,
/// and the zero bits are 47 or more in all.
pub proof fn lemma_sync_only(seen: usize, bits: Seq<bool>)
    requires
        spec_sync(seen, bits).outcome == Ok::<Option<PacketModel>, MalformedModel>(
            Some(PacketModel::Sync),
        ),
    ensures
        ({
            let taken = bits.len() - spec_sync(seen, bits).rest.len();
            &&& 1 <= taken <= bits.len()
            &&& seen + taken - 1 >= SYNC_MIN_ZEROS
            &&& bits.take(taken) == spec_zeros((taken - 1) as nat) + seq![true]
            &&& spec_sync(seen, bits).rest == bits.skip(taken)
        }),
    decreases bits.len(),
{
    let rest = spec_sync(seen, bits).rest;
    if bits[0] {
        assert(bits.take(1) =~= spec_zeros(0) + seq![true]);
    } else {
        let tail = bits.skip(1);
        lemma_sync_only(spec_count_zero(seen), tail);
        let taken = bits.len() - rest.len();
        assert(bits.take(taken) =~= spec_zeros((taken - 1) as nat) + seq![true]) by {
            assert(tail.take(taken - 1) == spec_zeros((taken - 2) as nat) + seq![true]);
            assert forall|i: int| 0 <= i < taken implies bits.take(taken)[i] == (spec_zeros(
                (taken - 1) as nat,
            ) + seq![true])[i] by {
                if i > 0 {
                    assert(bits.take(taken)[i] == tail.take(taken - 1)[i - 1]);
                }
            }
        }
        assert(tail.skip(taken - 1) =~= bits.skip(taken));
    }
}

/// Sync threshold, the other way round: at a packet boundary, a step that
/// ends with a synchronization has taken 47 or more zero bits and a set
/// bit, and nothing else.
pub proof fn lemma_sync_needs_zeros(bits: Seq<bool>)
    requires
        spec_step(None, bits).outcome == Ok::<Option<PacketModel>, MalformedModel>(
            Some(PacketModel::Sync),
        ),
    ensures
        ({
            let taken = bits.len() - spec_step(None, bits).rest.len();
            &&& SYNC_MIN_ZEROS + 1 <= taken <= bits.len()
            &&& bits.take(taken) == spec_zeros((taken - 1) as nat) + seq![true]
            &&& spec_step(None, bits).rest == bits.skip(taken)
        }),
{
    let header = spec_first_byte(bits);
    let tail = bits.skip(8);
    assert(spec_decode_header(header) == Ok::<HeaderModel, MalformedModel>(
        HeaderModel::Stub(PacketStub::Sync(8)),
    ));
    lemma_sync_only(8, tail);
    let rest = spec_sync(8, tail).rest;
    let taken = bits.len() - rest.len();
    assert(tail.skip(taken - 8) =~= bits.skip(taken));
    assert forall|i: int| 0 <= i < taken implies bits.take(taken)[i] == (spec_zeros(
        (taken - 1) as nat,
    ) + seq![true])[i] by {
        if i >= 8 {
            assert(bits.take(taken)[i] == tail.take(taken - 8)[i - 8]);
        }
    }
    assert(bits.take(taken) =~= spec_zeros((taken - 1) as nat) + seq![true]);
}

/// Continuation-payload bound: a global timestamp of format 2 is decoded
/// from a header and a payload of exactly 4 or 6 bytes. A timestamp of
/// another format is decoded from a header and the payload up to its
/// first byte without continuation bit: from 5 bytes at most where that
/// byte is among the first four of the payload.
pub proof fn lemma_timestamp_length(bits: Seq<bool>)
    ensures
        ({
            let step = spec_step(None, bits);
            let taken = bits.len() - step.rest.len();
            let payload = bits.skip(8);
            &&& step.outcome matches Ok(Some(PacketModel::GlobalTimestamp2 { .. })) ==> taken
                == 8 * 5 || taken == 8 * 7
            &&& (step.outcome matches Ok(Some(PacketModel::LocalTimestamp1 { .. }))
                || step.outcome matches Ok(Some(PacketModel::GlobalTimestamp1 { .. }))) ==> {
                &&& spec_payload_len(payload) matches Some(n) && taken == 8 * (1 + n)
                &&& (exists|k: int| 0 <= k < 4 && 8 * k + 7 < payload.len() && !spec_continues(
                    payload,
                    k,
                )) ==> taken <= 8 * 5
            }
        }),
{
    if bits.len() >= 8 {
        let payload = bits.skip(8);
        lemma_payload_len(payload);
        lemma_hardware_is_no_timestamp(bits);
        match spec_decode_header(spec_first_byte(bits)) {
            Ok(HeaderModel::Stub(PacketStub::Sync(zeros))) => {
                lemma_sync_is_no_timestamp(zeros, payload);
            },
            _ => {},
        }
    }
}

proof fn lemma_sync_is_no_timestamp(zeros: usize, bits: Seq<bool>)
    ensures
        spec_sync(zeros, bits).outcome is Err || spec_sync(zeros, bits).outcome == Ok::<
            Option<PacketModel>,
            MalformedModel,
        >(None) || spec_sync(zeros, bits).outcome == Ok::<Option<PacketModel>, MalformedModel>(
            Some(PacketModel::Sync),
        ),
    decreases bits.len(),
{
    if bits.len() > 0 && !bits[0] {
        lemma_sync_is_no_timestamp(spec_count_zero(zeros), bits.skip(1));
    }
}

proof fn lemma_hardware_is_no_timestamp(bits: Seq<bool>)
    requires
        bits.len() >= 8,
    ensures
        spec_decode_header(spec_first_byte(bits)) matches Ok(
            HeaderModel::Stub(PacketStub::HardwareSource { disc_id, expected_size }),
        ) ==> !(spec_hardware_source(
            disc_id,
            spec_bytes(bits.skip(8), expected_size.spec_bytes()),
        ) matches Ok(p) && (p is GlobalTimestamp2 || p is GlobalTimestamp1
            || p is LocalTimestamp1)),
        spec_decode_header(spec_first_byte(bits)) matches Ok(HeaderModel::Packet(p)) ==> !(
        p is GlobalTimestamp2 || p is GlobalTimestamp1 || p is LocalTimestamp1),
{
}

} // verus!
