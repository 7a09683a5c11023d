//! FNV-1a 64-bit hashing: the byte-level primitive behind every state
//! checksum. Multi-byte integers are always fed in little-endian order.
use vstd::prelude::*;

verus! {

/// FNV offset basis: the state of a fresh hasher.
pub const FNV_OFFSET_BASIS: u64 = 0xcbf2_9ce4_8422_2325;

/// FNV 64-bit prime.
pub const FNV_PRIME: u64 = 0x0000_0100_0000_01b3;

/// One FNV-1a round: xor the byte in, then multiply by the prime modulo 2^64.
pub open spec fn fnv_step(state: u64, b: u8) -> u64 {
    vstd::wrapping::u64_specs::wrapping_mul(state ^ (b as u64), FNV_PRIME)
}

/// The state reached from `state` after feeding `bytes` front to back.
pub open spec fn fnv_fold(state: u64, bytes: Seq<u8>) -> u64
    decreases bytes.len(),
{
    if bytes.len() == 0 {
        state
    } else {
        fnv_fold(fnv_step(state, bytes[0]), bytes.drop_first())
    }
}

/// The FNV-1a 64 digest of a byte string.
pub open spec fn fnv1a64(bytes: Seq<u8>) -> u64 {
    fnv_fold(FNV_OFFSET_BASIS, bytes)
}

/// Little-endian bytes of a `u16`.
pub open spec fn le_bytes_u16(v: u16) -> Seq<u8> {
    seq![(v % 256) as u8, (v / 256) as u8]
}

/// Little-endian bytes of a `u32`.
pub open spec fn le_bytes_u32(v: u32) -> Seq<u8> {
    seq![
        (v % 256) as u8,
        ((v / 256) % 256) as u8,
        ((v / 65536) % 256) as u8,
        (v / 16777216) as u8,
    ]
}

/// Little-endian bytes of a `u64`.
pub open spec fn le_bytes_u64(v: u64) -> Seq<u8> {
    le_bytes_u32((v % 0x1_0000_0000) as u32) + le_bytes_u32((v / 0x1_0000_0000) as u32)
}

/// Folding a concatenation is folding the parts one after the other.
pub proof fn lemma_fold_concat(state: u64, a: Seq<u8>, b: Seq<u8>)
    ensures
        fnv_fold(state, a + b) == fnv_fold(fnv_fold(state, a), b),
    decreases a.len(),
{
    if a.len() == 0 {
        assert(a + b =~= b);
    } else {
        assert((a + b).drop_first() =~= a.drop_first() + b);
        lemma_fold_concat(fnv_step(state, a[0]), a.drop_first(), b);
    }
}

/// Folding one more byte at the end is one more step.
pub proof fn lemma_fold_push(state: u64, a: Seq<u8>, b: u8)
    ensures
        fnv_fold(state, a.push(b)) == fnv_step(fnv_fold(state, a), b),
{
    lemma_fold_concat(state, a, seq![b]);
    assert(a.push(b) =~= a + seq![b]);
    let s = fnv_fold(state, a);
    assert(seq![b].drop_first() =~= Seq::<u8>::empty());
    assert(fnv_fold(s, seq![b]) == fnv_fold(fnv_step(s, b), Seq::<u8>::empty()));
}

/// Folding a single byte is a single step.
pub proof fn lemma_fold_single(state: u64, b: u8)
    ensures
        fnv_fold(state, seq![b]) == fnv_step(state, b),
{
    lemma_fold_push(state, Seq::<u8>::empty(), b);
    assert(Seq::<u8>::empty().push(b) =~= seq![b]);
}

/// FNV-1a 64-bit hasher.
#[derive(Clone, Copy)]
pub struct Fnv1a64 {
    state: u64,
}

impl View for Fnv1a64 {
    type V = u64;

    closed spec fn view(&self) -> u64 {
        self.state
    }
}

impl Fnv1a64 {
    /// A fresh hasher, initialised to the FNV offset basis.
    pub fn new() -> (h: Self)
        ensures
            h@ == FNV_OFFSET_BASIS,
    {
        Fnv1a64 { state: FNV_OFFSET_BASIS }
    }

    /// Feeds one byte: `state ^= b; state *= PRIME` (wrapping).
    pub fn write_u8(&mut self, b: u8)
        ensures
            final(self)@ == fnv_step(old(self)@, b),
    {
        let x = self.state ^ (b as u64);
        self.state = x.wrapping_mul(FNV_PRIME);
    }

    /// Feeds a byte string, front to back.
    pub fn write_bytes(&mut self, bytes: &[u8])
        ensures
            final(self)@ == fnv_fold(old(self)@, bytes@),
    {
        let ghost start = self@;
        let n = bytes.len();
        let mut i: usize = 0;
        while i < n
            invariant
                n == bytes@.len(),
                i <= n,
                self@ == fnv_fold(start, bytes@.take(i as int)),
            decreases n - i,
        {
            proof {
                lemma_fold_push(start, bytes@.take(i as int), bytes@[i as int]);
                assert(bytes@.take(i as int).push(bytes@[i as int]) =~= bytes@.take(i + 1));
            }
            self.write_u8(bytes[i]);
            i += 1;
        }
        assert(bytes@.take(n as int) =~= bytes@);
    }

    /// Feeds a `u16` as its little-endian bytes.
    pub fn write_u16(&mut self, v: u16)
        ensures
            final(self)@ == fnv_fold(old(self)@, le_bytes_u16(v)),
    {
        let b = [(v % 256) as u8, (v / 256) as u8];
        assert(b@ =~= le_bytes_u16(v));
        self.write_bytes(&b);
    }

    /// Feeds a `u32` as its little-endian bytes.
    pub fn write_u32(&mut self, v: u32)
        ensures
            final(self)@ == fnv_fold(old(self)@, le_bytes_u32(v)),
    {
        let b = [
            (v % 256) as u8,
            ((v / 256) % 256) as u8,
            ((v / 65536) % 256) as u8,
            (v / 16777216) as u8,
        ];
        assert(b@ =~= le_bytes_u32(v));
        self.write_bytes(&b);
    }

    /// Feeds a `u64` as its little-endian bytes.
    pub fn write_u64(&mut self, v: u64)
        ensures
            final(self)@ == fnv_fold(old(self)@, le_bytes_u64(v)),
    {
        let ghost start = self@;
        let lo = (v % 0x1_0000_0000) as u32;
        let hi = (v / 0x1_0000_0000) as u32;
        self.write_u32(lo);
        self.write_u32(hi);
        proof {
            lemma_fold_concat(start, le_bytes_u32(lo), le_bytes_u32(hi));
        }
    }

    /// Feeds an `i32` as the little-endian bytes of its two's-complement bits.
    pub fn write_i32(&mut self, v: i32)
        ensures
            final(self)@ == fnv_fold(old(self)@, le_bytes_u32(v as u32)),
    {
        self.write_u32(v as u32);
    }

    /// The current digest.
    pub fn finish(&self) -> (r: u64)
        ensures
            r == self@,
    {
        self.state
    }
}

impl Default for Fnv1a64 {
    fn default() -> (h: Self)
        ensures
            h@ == FNV_OFFSET_BASIS,
    {
        Fnv1a64::new()
    }
}


/// A value that takes part in a state checksum: it feeds a fixed byte string
/// (little-endian, fields in declaration order) into a hasher.
pub trait Checksum {
    /// The bytes this value feeds into a hasher.
    spec fn checksum_bytes(&self) -> Seq<u8>;

    /// Feeds this value's bytes into `h`.
    fn hash_into(&self, h: &mut Fnv1a64)
        ensures
            final(h)@ == fnv_fold(old(h)@, self.checksum_bytes()),
    ;

    /// Fresh hasher, feed, digest.
    fn checksum(&self) -> (r: u64)
        ensures
            r == fnv1a64(self.checksum_bytes()),
    {
        let mut h = Fnv1a64::new();
        self.hash_into(&mut h);
        h.finish()
    }
}

impl Checksum for u8 {
    open spec fn checksum_bytes(&self) -> Seq<u8> {
        seq![*self]
    }

    fn hash_into(&self, h: &mut Fnv1a64) {
        h.write_u8(*self);
        proof {
            lemma_fold_single(old(h)@, *self);
        }
    }
}

impl Checksum for i8 {
    open spec fn checksum_bytes(&self) -> Seq<u8> {
        seq![*self as u8]
    }

    fn hash_into(&self, h: &mut Fnv1a64) {
        h.write_u8(*self as u8);
        proof {
            lemma_fold_single(old(h)@, *self as u8);
        }
    }
}

impl Checksum for bool {
    open spec fn checksum_bytes(&self) -> Seq<u8> {
        seq![if *self { 1u8 } else { 0u8 }]
    }

    fn hash_into(&self, h: &mut Fnv1a64) {
        let b: u8 = if *self { 1 } else { 0 };
        h.write_u8(b);
        proof {
            lemma_fold_single(old(h)@, b);
        }
    }
}

impl Checksum for u16 {
    open spec fn checksum_bytes(&self) -> Seq<u8> {
        le_bytes_u16(*self)
    }

    fn hash_into(&self, h: &mut Fnv1a64) {
        h.write_u16(*self);
    }
}

impl Checksum for i16 {
    open spec fn checksum_bytes(&self) -> Seq<u8> {
        le_bytes_u16(*self as u16)
    }

    fn hash_into(&self, h: &mut Fnv1a64) {
        h.write_u16(*self as u16);
    }
}

impl Checksum for u32 {
    open spec fn checksum_bytes(&self) -> Seq<u8> {
        le_bytes_u32(*self)
    }

    fn hash_into(&self, h: &mut Fnv1a64) {
        h.write_u32(*self);
    }
}

impl Checksum for i32 {
    open spec fn checksum_bytes(&self) -> Seq<u8> {
        le_bytes_u32(*self as u32)
    }

    fn hash_into(&self, h: &mut Fnv1a64) {
        h.write_i32(*self);
    }
}

impl Checksum for u64 {
    open spec fn checksum_bytes(&self) -> Seq<u8> {
        le_bytes_u64(*self)
    }

    fn hash_into(&self, h: &mut Fnv1a64) {
        h.write_u64(*self);
    }
}

impl Checksum for i64 {
    open spec fn checksum_bytes(&self) -> Seq<u8> {
        le_bytes_u64(*self as u64)
    }

    fn hash_into(&self, h: &mut Fnv1a64) {
        h.write_u64(*self as u64);
    }
}

/// The concatenated checksum bytes of a sequence of values, in order.
pub open spec fn seq_checksum_bytes<T: Checksum>(s: Seq<T>) -> Seq<u8>
    decreases s.len(),
{
    if s.len() == 0 {
        Seq::empty()
    } else {
        seq_checksum_bytes(s.drop_last()) + s.last().checksum_bytes()
    }
}

/// An array hashes element by element, which equals hashing the
/// concatenation of its elements' bytes.
impl<T: Checksum, const N: usize> Checksum for [T; N] {
    open spec fn checksum_bytes(&self) -> Seq<u8> {
        seq_checksum_bytes(self@)
    }

    fn hash_into(&self, h: &mut Fnv1a64) {
        let ghost start = h@;
        let mut i: usize = 0;
        while i < N
            invariant
                i <= N,
                self@.len() == N,
                h@ == fnv_fold(start, seq_checksum_bytes(self@.take(i as int))),
            decreases N - i,
        {
            let ghost before = h@;
            self[i].hash_into(h);
            proof {
                let t = self@.take(i + 1);
                assert(t.drop_last() =~= self@.take(i as int));
                assert(t.last() == self@[i as int]);
                lemma_fold_concat(start, seq_checksum_bytes(self@.take(i as int)), self@[i as int].checksum_bytes());
            }
            i += 1;
        }
        assert(self@.take(N as int) =~= self@);
    }
}

/// A pair hashes its first component, then its second.
impl<A: Checksum, B: Checksum> Checksum for (A, B) {
    open spec fn checksum_bytes(&self) -> Seq<u8> {
        self.0.checksum_bytes() + self.1.checksum_bytes()
    }

    fn hash_into(&self, h: &mut Fnv1a64) {
        let ghost s0 = h@;
        self.0.hash_into(h);
        self.1.hash_into(h);
        proof {
            lemma_fold_concat(s0, self.0.checksum_bytes(), self.1.checksum_bytes());
        }
    }
}

} // verus!
