//! A bit-granular FIFO over the incoming trace bytes.
//!
//! Bytes are fed in at one end; bits, bytes and whole payloads are popped
//! at the other. A pop that finds too few bits changes nothing, so that a
//! caller can feed more bytes and try again. Nothing snaps to a byte
//! boundary: after a synchronization packet the stream may go on in the
//! middle of a byte.

use bitvec::order::Lsb0;
use bitvec::vec::BitVec;
use vstd::prelude::*;

verus! {

/// A bit vector of the `bitvec` crate, with bytes as storage and the least
/// significant bit of each byte first. The verifier does not look inside:
/// what the vector holds goes by the name [`bit_contents`], and what its
/// methods do is taken from the functions below that call them.
#[verifier::external_body]
pub struct RawBits {
    inner: BitVec<u8, Lsb0>,
}

/// The bits that a bit vector holds, in index order.
pub uninterp spec fn bit_contents(v: RawBits) -> Seq<bool>;

/// The greatest number of bits that a bit vector can hold.
pub open spec fn spec_max_bits() -> int {
    usize::MAX as int / 8
}

/// The eight bits of a byte, the least significant first.
pub open spec fn spec_byte_bits(b: u8) -> Seq<bool> {
    seq![
        b % 2 == 1,
        (b / 2) % 2 == 1,
        (b / 4) % 2 == 1,
        (b / 8) % 2 == 1,
        (b / 16) % 2 == 1,
        (b / 32) % 2 == 1,
        (b / 64) % 2 == 1,
        (b / 128) % 2 == 1,
    ]
}

/// The bits of a sequence of bytes in stream order: byte after byte, each
/// with its least significant bit first.
pub open spec fn spec_bits_of_bytes(bytes: Seq<u8>) -> Seq<bool> {
    Seq::new(8 * bytes.len(), |i: int| spec_byte_bits(bytes[i / 8])[i % 8])
}

/// `weight` if `bit` is set, else nothing.
pub open spec fn spec_weigh(bit: bool, weight: int) -> int {
    if bit {
        weight
    } else {
        0
    }
}

/// The byte that the first eight bits of `bits` make up, the first bit
/// least significant.
pub open spec fn spec_first_byte(bits: Seq<bool>) -> u8
    recommends
        bits.len() >= 8,
{
    (spec_weigh(bits[0], 1) + spec_weigh(bits[1], 2) + spec_weigh(bits[2], 4) + spec_weigh(
        bits[3],
        8,
    ) + spec_weigh(bits[4], 16) + spec_weigh(bits[5], 32) + spec_weigh(bits[6], 64) + spec_weigh(
        bits[7],
        128,
    )) as u8
}

/// The first `n` bytes that `bits` make up.
pub open spec fn spec_bytes(bits: Seq<bool>, n: nat) -> Seq<u8>
    recommends
        bits.len() >= 8 * n,
{
    Seq::new(n, |i: int| spec_first_byte(bits.skip(8 * i)))
}

/// The continuation bit (bit 7) of byte `k` of `bits`.
pub open spec fn spec_continues(bits: Seq<bool>, k: int) -> bool {
    bits[8 * k + 7]
}

/// The length in bytes of the payload at the head of `bits`: the bytes
/// up to and including the first whose continuation bit (bit 7) is clear.
/// `None` while no such byte is complete.
pub open spec fn spec_payload_len(bits: Seq<bool>) -> Option<nat>
    decreases bits.len(),
{
    if bits.len() < 8 {
        None
    } else if !bits[7] {
        Some(1nat)
    } else {
        match spec_payload_len(bits.skip(8)) {
            Some(n) => Some(n + 1),
            None => None,
        }
    }
}

/// `BitVec::new`: the new vector holds no bit.
#[verifier::external_body]
fn bitvec_new() -> (v: RawBits)
    ensures
        bit_contents(v) == Seq::<bool>::empty(),
{
    RawBits { inner: BitVec::new() }
}

/// `BitVec::from_vec`: the vector spans every bit of the bytes given, in
/// the order `Lsb0`: byte after byte, the least significant bit of each
/// first. It panics where the bits are more than a bit vector can hold.
#[verifier::external_body]
fn bitvec_from_vec(bytes: Vec<u8>) -> (v: RawBits)
    requires
        8 * bytes@.len() <= spec_max_bits(),
    ensures
        bit_contents(v) == spec_bits_of_bytes(bytes@),
{
    RawBits { inner: BitVec::from_vec(bytes) }
}

/// `BitSlice::reverse`: reverses the order of the bits.
#[verifier::external_body]
fn bitvec_reverse(v: &mut RawBits)
    ensures
        bit_contents(*final(v)) == bit_contents(*old(v)).reverse(),
{
    v.inner.reverse()
}

/// `BitVec::append`: moves all the bits of `other` to the back of `v` and
/// leaves `other` empty. It panics where the two together hold more bits
/// than a bit vector can.
#[verifier::external_body]
fn bitvec_append(v: &mut RawBits, other: &mut RawBits)
    requires
        bit_contents(*old(v)).len() + bit_contents(*old(other)).len() <= spec_max_bits(),
    ensures
        bit_contents(*final(v)) == bit_contents(*old(v)) + bit_contents(*old(other)),
        bit_contents(*final(other)) == Seq::<bool>::empty(),
{
    v.inner.append(&mut other.inner)
}

/// `BitVec::len`: the number of bits held.
#[verifier::external_body]
fn bitvec_len(v: &RawBits) -> (n: usize)
    ensures
        n == bit_contents(*v).len(),
{
    v.inner.len()
}

/// Indexing of a `BitSlice`: the bit at `index`. It panics where `index`
/// is not below the length.
#[verifier::external_body]
fn bitvec_get(v: &RawBits, index: usize) -> (bit: bool)
    requires
        index < bit_contents(*v).len(),
    ensures
        bit == bit_contents(*v)[index as int],
{
    v.inner[index]
}

/// `BitVec::pop`: removes the bit at the highest index and returns it,
/// or returns `None` and changes nothing when the vector is empty.
#[verifier::external_body]
fn bitvec_pop(v: &mut RawBits) -> (r: Option<bool>)
    ensures
        bit_contents(*old(v)).len() == 0 ==> r.is_none() && bit_contents(*final(v))
            == bit_contents(*old(v)),
        bit_contents(*old(v)).len() > 0 ==> r == Some(bit_contents(*old(v)).last())
            && bit_contents(*final(v)) == bit_contents(*old(v)).drop_last(),
{
    v.inner.pop()
}

/// The weight of bit `i` of a byte.
spec fn spec_weight(i: int) -> int {
    if i == 0 {
        1
    } else if i == 1 {
        2
    } else if i == 2 {
        4
    } else if i == 3 {
        8
    } else if i == 4 {
        16
    } else if i == 5 {
        32
    } else if i == 6 {
        64
    } else {
        128
    }
}

/// The value of the first `k` bits of a byte that starts `bits`.
spec fn spec_byte_prefix(bits: Seq<bool>, k: int) -> int
    decreases k,
{
    if k <= 0 {
        0
    } else {
        spec_byte_prefix(bits, k - 1) + spec_weigh(bits[k - 1], spec_weight(k - 1))
    }
}

proof fn lemma_byte_prefix(bits: Seq<bool>)
    ensures
        spec_byte_prefix(bits, 8) == spec_first_byte(bits),
{
    reveal_with_fuel(spec_byte_prefix, 9);
}

/// `n` more than what `o` holds, if it holds anything.
spec fn spec_lift(o: Option<nat>, n: nat) -> Option<nat> {
    match o {
        Some(k) => Some(k + n),
        None => None,
    }
}

/// A byte is the sum of its bits, each with its weight.
proof fn lemma_byte_sum(b: u8)
    by (bit_vector)
    ensures
        b % 2 + 2 * ((b / 2) % 2) + 4 * ((b / 4) % 2) + 8 * ((b / 8) % 2) + 16 * ((b / 16) % 2) + 32
            * ((b / 32) % 2) + 64 * ((b / 64) % 2) + 128 * ((b / 128) % 2) == b,
{
}

/// The bits of a byte make up the byte.
pub proof fn lemma_byte_bits(b: u8)
    ensures
        spec_first_byte(spec_byte_bits(b)) == b,
{
    lemma_byte_sum(b);
    let bits = spec_byte_bits(b);
    assert(spec_weigh(bits[0], 1) == b % 2);
    assert(spec_weigh(bits[1], 2) == 2 * ((b / 2) % 2));
    assert(spec_weigh(bits[2], 4) == 4 * ((b / 4) % 2));
    assert(spec_weigh(bits[3], 8) == 8 * ((b / 8) % 2));
    assert(spec_weigh(bits[4], 16) == 16 * ((b / 16) % 2));
    assert(spec_weigh(bits[5], 32) == 32 * ((b / 32) % 2));
    assert(spec_weigh(bits[6], 64) == 64 * ((b / 64) % 2));
    assert(spec_weigh(bits[7], 128) == 128 * ((b / 128) % 2));
}

/// The first byte that the bits of some bytes make up is the first of
/// the bytes, whatever bits follow; behind it come the bits of the other
/// bytes.
pub proof fn lemma_first_byte(bytes: Seq<u8>, more: Seq<bool>)
    requires
        bytes.len() >= 1,
    ensures
        spec_first_byte(spec_bits_of_bytes(bytes) + more) == bytes[0],
        (spec_bits_of_bytes(bytes) + more).skip(8) == spec_bits_of_bytes(bytes.skip(1)) + more,
{
    let bits = spec_bits_of_bytes(bytes) + more;
    lemma_byte_bits(bytes[0]);
    assert forall|i: int| 0 <= i < 8 implies bits[i] == spec_byte_bits(bytes[0])[i] by {
        assert(bits[i] == spec_bits_of_bytes(bytes)[i]);
    }
    assert forall|i: int| 0 <= i < bits.len() - 8 implies bits.skip(8)[i] == (spec_bits_of_bytes(
        bytes.skip(1),
    ) + more)[i] by {
        if i < 8 * (bytes.len() - 1) {
            assert(bits[i + 8] == spec_bits_of_bytes(bytes)[i + 8]);
            assert((i + 8) / 8 == i / 8 + 1);
            assert((i + 8) % 8 == i % 8);
        }
    }
    assert(bits.skip(8) =~= spec_bits_of_bytes(bytes.skip(1)) + more);
}

/// The first `n` bytes that the bits of some bytes make up are the first
/// `n` of the bytes, whatever bits follow; behind them come the bits of
/// the other bytes.
pub proof fn lemma_bytes_of_bits(bytes: Seq<u8>, more: Seq<bool>, n: nat)
    requires
        n <= bytes.len(),
    ensures
        spec_bytes(spec_bits_of_bytes(bytes) + more, n) == bytes.take(n as int),
        (spec_bits_of_bytes(bytes) + more).skip(8 * (n as int)) == spec_bits_of_bytes(
            bytes.skip(n as int),
        )
            + more,
    decreases n,
{
    let bits = spec_bits_of_bytes(bytes) + more;
    if n == 0 {
        assert(bits.skip(0) =~= bits);
        assert(bytes.skip(0) =~= bytes);
        assert(spec_bytes(bits, 0) =~= bytes.take(0));
    } else {
        let k = (n - 1) as nat;
        lemma_bytes_of_bits(bytes, more, k);
        lemma_first_byte(bytes.skip(k as int), more);
        assert(bits.skip(8 * (k as int)).skip(8) =~= bits.skip(8 * (n as int)));
        assert(bytes.skip(k as int).skip(1) =~= bytes.skip(n as int));
        assert forall|i: int| 0 <= i < n implies spec_bytes(bits, n)[i] == bytes.take(n as int)[i] by {
            if i < k {
                assert(spec_bytes(bits, n)[i] == spec_bytes(bits, k)[i]);
                assert(bytes.take(k as int)[i] == bytes[i]);
            }
        }
        assert(spec_bytes(bits, n) =~= bytes.take(n as int));
    }
}

/// What holds of a complete payload: it has a last byte, the buffer
/// holds all of it, and the last byte is the first without continuation
/// bit.
pub proof fn lemma_payload_len(bits: Seq<bool>)
    ensures
        spec_payload_len(bits) matches Some(n) ==> {
            &&& 1 <= n
            &&& 8 * n <= bits.len()
            &&& !spec_continues(bits, n - 1)
            &&& forall|k: int| 0 <= k < n - 1 ==> #[trigger] spec_continues(bits, k)
        },
        spec_payload_len(bits).is_none() ==> forall|k: int|
            0 <= k && 8 * k + 7 < bits.len() ==> #[trigger] spec_continues(bits, k),
    decreases bits.len(),
{
    if bits.len() >= 8 && bits[7] {
        let tail = bits.skip(8);
        lemma_payload_len(tail);
        match spec_payload_len(tail) {
            Some(m) => {
                assert forall|k: int| 0 <= k < m implies #[trigger] spec_continues(bits, k) by {
                    if k > 0 {
                        assert(spec_continues(tail, k - 1) == spec_continues(bits, k));
                    }
                }
                assert(spec_continues(tail, m - 1) == spec_continues(bits, m as int));
            },
            None => {
                assert forall|k: int| 0 <= k && 8 * k + 7 < bits.len() implies #[trigger] spec_continues(
                    bits,
                    k,
                ) by {
                    if k > 0 {
                        assert(spec_continues(tail, k - 1) == spec_continues(bits, k));
                    }
                }
            },
        }
    }
}

/// The bit FIFO that a decoder reads from.
pub struct Buffer {
    bits: RawBits,
}

impl Buffer {
    /// The pending bits, the next one to leave first.
    pub closed spec fn view(&self) -> Seq<bool> {
        bit_contents(self.bits).reverse()
    }

    /// An empty buffer.
    pub fn new() -> (b: Buffer)
        ensures
            b@ == Seq::<bool>::empty(),
    {
        Buffer { bits: bitvec_new() }
    }

    /// The number of pending bits.
    pub fn len(&self) -> (n: usize)
        ensures
            n == self@.len(),
    {
        bitvec_len(&self.bits)
    }

    /// Whether `bytes` can still be fed: a buffer holds no more than an
    /// eighth of `usize::MAX` bits.
    pub fn has_room(&self, bytes: usize) -> (r: bool)
        ensures
            r == (self@.len() + 8 * bytes <= spec_max_bits()),
    {
        let max: usize = usize::MAX / 8;
        let len = self.len();
        len <= max && bytes <= (max - len) / 8
    }

    /// Appends `bytes` behind the pending bits.
    pub fn feed(&mut self, bytes: Vec<u8>)
        requires
            old(self)@.len() + 8 * bytes@.len() <= spec_max_bits(),
        ensures
            final(self)@ == old(self)@ + spec_bits_of_bytes(bytes@),
    {
        // Bits leave at the back of the vector, so the new ones go in
        // reversed at its front.
        let mut bv = bitvec_from_vec(bytes);
        bitvec_reverse(&mut bv);
        bitvec_append(&mut bv, &mut self.bits);
        bitvec_append(&mut self.bits, &mut bv);
        proof {
            let new = spec_bits_of_bytes(bytes@);
            let held = bit_contents(old(self).bits);
            assert((new.reverse() + held).reverse() =~= held.reverse() + new);
            assert(Seq::<bool>::empty() + (new.reverse() + held) =~= new.reverse() + held);
        }
    }

    /// Removes and returns the next bit. With no bit pending, returns
    /// `None`.
    pub fn pop_bit(&mut self) -> (r: Option<bool>)
        ensures
            old(self)@.len() == 0 ==> r.is_none() && final(self)@ == old(self)@,
            old(self)@.len() > 0 ==> r == Some(old(self)@[0]) && final(self)@ == old(self)@.skip(
                1,
            ),
    {
        let r = bitvec_pop(&mut self.bits);
        proof {
            let held = bit_contents(old(self).bits);
            if held.len() > 0 {
                assert(held.drop_last().reverse() =~= held.reverse().skip(1));
            }
        }
        r
    }

    /// The pending bit at `index`, left in place.
    fn peek_bit(&self, index: usize) -> (bit: bool)
        requires
            index < self@.len(),
        ensures
            bit == self@[index as int],
    {
        let len = bitvec_len(&self.bits);
        bitvec_get(&self.bits, len - 1 - index)
    }

    /// Removes eight bits and packs them into a byte, the first bit
    /// popped in bit 0. With fewer than eight bits pending, returns `None`
    /// and removes nothing.
    pub fn pop_byte(&mut self) -> (r: Option<u8>)
        ensures
            old(self)@.len() < 8 ==> r.is_none() && final(self)@ == old(self)@,
            old(self)@.len() >= 8 ==> r == Some(spec_first_byte(old(self)@)) && final(self)@
                == old(self)@.skip(8),
    {
        if self.len() < 8 {
            return None;
        }
        let mut b: u16 = 0;
        let mut weight: u16 = 1;
        let mut i: usize = 0;
        while i < 8
            invariant
                i <= 8,
                old(self)@.len() >= 8,
                self@ == old(self)@.skip(i as int),
                b == spec_byte_prefix(old(self)@, i as int),
                i < 8 ==> weight == spec_weight(i as int),
                b < 256,
                i < 8 ==> b < weight,
            decreases 8 - i,
        {
            let bit = self.pop_bit();
            proof {
                assert(old(self)@.skip(i as int).skip(1) =~= old(self)@.skip(i + 1));
            }
            if let Some(true) = bit {
                b = b + weight;
            }
            if i < 7 {
                weight = 2 * weight;
            }
            i = i + 1;
        }
        proof {
            lemma_byte_prefix(old(self)@);
        }
        Some(b as u8)
    }

    /// Removes `cnt` bytes. With fewer pending, returns `None` and
    /// removes nothing.
    pub fn pop_bytes(&mut self, cnt: usize) -> (r: Option<Vec<u8>>)
        ensures
            old(self)@.len() < 8 * cnt ==> r.is_none() && final(self)@ == old(self)@,
            old(self)@.len() >= 8 * cnt ==> final(self)@ == old(self)@.skip(8 * cnt) && (
            r matches Some(bytes) && bytes@ == spec_bytes(old(self)@, cnt as nat)),
    {
        if self.len() / 8 < cnt {
            return None;
        }
        let mut bytes: Vec<u8> = Vec::new();
        let mut i: usize = 0;
        while i < cnt
            invariant
                i <= cnt,
                old(self)@.len() >= 8 * cnt,
                self@ == old(self)@.skip(8 * i),
                bytes@ == spec_bytes(old(self)@, i as nat),
            decreases cnt - i,
        {
            let b = self.pop_byte();
            proof {
                assert(old(self)@.skip(8 * i).skip(8) =~= old(self)@.skip(8 * (i + 1)));
            }
            match b {
                Some(b) => {
                    bytes.push(b);
                },
                None => {
                    assert(false);
                },
            }
            i = i + 1;
            proof {
                assert(bytes@ =~= spec_bytes(old(self)@, i as nat));
            }
        }
        Some(bytes)
    }

    /// The length of the payload at the head of the buffer, if it is
    /// complete.
    fn payload_len(&self) -> (r: Option<usize>)
        ensures
            r matches Some(n) ==> spec_payload_len(self@) == Some(n as nat) && 8 * n
                <= self@.len(),
            r.is_none() ==> spec_payload_len(self@).is_none(),
    {
        let len = self.len();
        let mut n: usize = 0;
        proof {
            assert(self@.skip(0) =~= self@);
        }
        while len / 8 > n
            invariant
                len == self@.len(),
                8 * n <= len,
                spec_payload_len(self@) == spec_lift(
                    spec_payload_len(self@.skip(8 * n)),
                    n as nat,
                ),
            decreases len / 8 - n,
        {
            proof {
                assert(self@.skip(8 * n).skip(8) =~= self@.skip(8 * (n + 1)));
            }
            if !self.peek_bit(8 * n + 7) {
                return Some(n + 1);
            }
            n = n + 1;
        }
        None
    }

    /// Removes bytes up to and including the first without continuation
    /// bit (bit 7), and returns them in order. While no such byte is
    /// complete, returns `None` and removes nothing.
    pub fn pop_payload(&mut self) -> (r: Option<Vec<u8>>)
        ensures
            match spec_payload_len(old(self)@) {
                Some(n) => final(self)@ == old(self)@.skip(8 * (n as int)) && (r matches Some(bytes)
                    && bytes@ == spec_bytes(old(self)@, n)),
                None => r.is_none() && final(self)@ == old(self)@,
            },
    {
        match self.payload_len() {
            Some(n) => self.pop_bytes(n),
            None => None,
        }
    }
}

} // verus!
