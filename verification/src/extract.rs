//! The timestamp that a continuation-bit payload carries.
//!
//! Each byte of the payload but the last carries seven bits of the
//! timestamp, the first byte the least significant; bit 7 says that more
//! bytes follow. The last byte carries the highest bits of the timestamp,
//! as many as the timestamp still has.

use vstd::arithmetic::div_mod::{lemma_add_mod_noop, lemma_mul_mod_noop_left, lemma_small_mod};
use vstd::prelude::*;

verus! {

/// The mask that leaves of the last payload byte of a timestamp the bits
/// that belong to it, where bit `max_len` is the highest of the timestamp.
pub open spec fn spec_last_mask(max_len: u64) -> u8 {
    0xFFu8 >> ((7 - max_len % 7) as u64)
}

/// The number that a timestamp payload stands for: seven bits of each
/// byte but the last, the first byte least significant, and on top the
/// bits of the last byte that `mask` leaves.
pub open spec fn spec_timestamp_value(payload: Seq<u8>, mask: u8) -> int
    decreases payload.len(),
{
    if payload.len() == 0 {
        0
    } else if payload.len() == 1 {
        (payload[0] & mask) as int
    } else {
        (payload[0] & 0x7f) as int + 0x80 * spec_timestamp_value(payload.skip(1), mask)
    }
}

/// The timestamp of a payload, as far as it fits in 64 bits.
pub open spec fn spec_extract_timestamp(payload: Seq<u8>, max_len: u64) -> u64 {
    (spec_timestamp_value(payload, spec_last_mask(max_len)) % 0x1_0000_0000_0000_0000) as u64
}

proof fn lemma_shift_group(ts: u64, byte: u8, mask: u8, shift: u64)
    by (bit_vector)
    requires
        1 <= shift <= 7,
        mask == 0xFFu8 >> shift,
    ensures
        ((ts << 7) | ((byte & 0x7f) as u64)) == (ts as int * 0x80 + (byte & 0x7f) as int)
            % 0x1_0000_0000_0000_0000,
        byte & mask < 0x80,
{
}

proof fn lemma_horner_mod(value: int, group: int)
    ensures
        ((value % 0x1_0000_0000_0000_0000) * 0x80 + group) % 0x1_0000_0000_0000_0000 == (group
            + 0x80 * value) % 0x1_0000_0000_0000_0000,
{
    let m = 0x1_0000_0000_0000_0000int;
    lemma_mul_mod_noop_left(value, 0x80, m);
    lemma_add_mod_noop((value % m) * 0x80, group, m);
    lemma_add_mod_noop(value * 0x80, group, m);
}

/// Extracts the timestamp from a payload whose last byte contributes the
/// bits up to bit `max_len` of the timestamp.
pub fn extract_timestamp(payload: Vec<u8>, max_len: u64) -> (ts: u64)
    requires
        payload@.len() >= 1,
    ensures
        ts == spec_extract_timestamp(payload@, max_len),
{
    // Mask out the timestamp's MSBs of the last byte.
    let shift: u64 = 7 - (max_len % 7);
    let mask: u8 = 0xFFu8 >> shift;
    let n = payload.len();
    let mut ts: u64 = (payload[n - 1] & mask) as u64;
    let mut i: usize = n - 1;
    proof {
        lemma_shift_group(0, payload@[n - 1], mask, shift);
        lemma_small_mod((payload@[n - 1] & mask) as nat, 0x1_0000_0000_0000_0000);
    }
    // Decode the first N - 1 payload bytes, the last of them first.
    while i > 0
        invariant
            i < n,
            n == payload@.len(),
            mask == spec_last_mask(max_len),
            1 <= shift <= 7,
            mask == 0xFFu8 >> shift,
            ts == spec_timestamp_value(payload@.skip(i as int), mask) % 0x1_0000_0000_0000_0000,
        decreases i,
    {
        i = i - 1;
        let group = payload[i] & 0x7f;  // mask out continuation bit
        proof {
            assert(payload@.skip(i as int).skip(1) =~= payload@.skip(i + 1));
            lemma_shift_group(ts, payload@[i as int], mask, shift);
            lemma_horner_mod(spec_timestamp_value(payload@.skip(i + 1), mask), group as int);
        }
        ts = (ts << 7) | (group as u64);
    }
    proof {
        assert(payload@.skip(0) =~= payload@);
    }
    ts
}


proof fn lemma_masks(b: u8)
    by (bit_vector)
    ensures
        b & 0x7f <= 0x7f,
        b & (0xFFu8 >> 7u64) <= 0x01,
        b & (0xFFu8 >> 5u64) <= 0x07,
        b & (0xFFu8 >> 3u64) <= 0x1f,
        b & (0xFFu8 >> 1u64) <= 0x7f,
{
}

/// How far a timestamp reaches: the higher half of the global timestamp
/// takes 22 bits from a payload of 4 bytes and 38 bits from one of 6; a
/// local timestamp from up to 4 bytes takes 28 bits, the lower half of
/// the global timestamp 26.
pub proof fn lemma_timestamp_bounds(payload: Seq<u8>)
    ensures
        payload.len() == 4 ==> spec_extract_timestamp(payload, 21) < 0x40_0000,
        payload.len() == 6 ==> spec_extract_timestamp(payload, 37) < 0x40_0000_0000,
        1 <= payload.len() <= 4 ==> spec_extract_timestamp(payload, 27) < 0x1000_0000,
        1 <= payload.len() <= 4 ==> spec_extract_timestamp(payload, 25) < 0x400_0000,
{
    reveal_with_fuel(spec_timestamp_value, 7);
    assert forall|i: int| 0 <= i < payload.len() implies {
        &&& payload[i] & 0x7f <= 0x7f
        &&& payload[i] & spec_last_mask(21) <= 0x01
        &&& payload[i] & spec_last_mask(37) <= 0x07
        &&& payload[i] & spec_last_mask(25) <= 0x1f
        &&& payload[i] & spec_last_mask(27) <= 0x7f
    } by {
        lemma_masks(payload[i]);
    }
    if 1 <= payload.len() <= 6 {
        let n = payload.len() as int;
        assert(forall|i: int, j: int|
            0 <= i && 0 <= j && i + j < n ==> #[trigger] payload.skip(i)[j] == payload[i + j]);
        if n >= 2 {
            assert(payload.skip(1).skip(1) =~= payload.skip(2));
        }
        if n >= 3 {
            assert(payload.skip(2).skip(1) =~= payload.skip(3));
        }
        if n >= 4 {
            assert(payload.skip(3).skip(1) =~= payload.skip(4));
        }
        if n >= 5 {
            assert(payload.skip(4).skip(1) =~= payload.skip(5));
        }
    }
}

} // verus!
