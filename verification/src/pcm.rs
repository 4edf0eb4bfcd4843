//! 16-bit little-endian PCM: sizes, sample decoding and encoding, and the
//! staging buffer that feeds a block resampler fixed-size blocks.

use crate::blocks::{blocks_of, cut_blocks, leftover_of};
use vstd::prelude::*;

verus! {

/// Number of bytes of `ms` milliseconds of 24 kHz mono PCM16 audio,
/// rounded down: `24_000 * 2 * ms / 1000`.
pub open spec fn spec_min_bytes_24k_pcm16(ms: u32) -> int {
    (48_000 * ms) / 1000
}

/// Bytes of `ms` milliseconds of 24 kHz mono PCM16 audio (rounded down).
/// The intermediate product `48_000 * ms` must fit in a `usize`.
pub fn min_bytes_24k_pcm16(ms: u32) -> (n: usize)
    requires
        48_000 * ms <= usize::MAX,
    ensures
        n == spec_min_bytes_24k_pcm16(ms),
{
    (24_000usize * 2 * ms as usize) / 1000
}

/// The signed sample that the byte pair `(lo, hi)` encodes in little-endian
/// two's complement.
pub open spec fn sample_of(lo: u8, hi: u8) -> i16 {
    let u = lo + 256 * hi;
    (if u >= 32768 {
        u - 65536
    } else {
        u
    }) as i16
}

/// The low byte of a sample's little-endian encoding.
pub open spec fn sample_lo(s: i16) -> u8 {
    ((if s < 0 {
        s + 65536
    } else {
        s as int
    }) % 256) as u8
}

/// The high byte of a sample's little-endian encoding.
pub open spec fn sample_hi(s: i16) -> u8 {
    ((if s < 0 {
        s + 65536
    } else {
        s as int
    }) / 256) as u8
}

/// The samples that a PCM16LE byte sequence encodes, one per byte pair.
pub open spec fn decode_pcm16(b: Seq<u8>) -> Seq<i16> {
    Seq::new(b.len() / 2, |i: int| sample_of(b[2 * i], b[2 * i + 1]))
}

/// The PCM16LE bytes of a sequence of samples, two per sample.
pub open spec fn encode_pcm16(s: Seq<i16>) -> Seq<u8> {
    Seq::new(
        2 * s.len(),
        |i: int|
            if i % 2 == 0 {
                sample_lo(s[i / 2])
            } else {
                sample_hi(s[i / 2])
            },
    )
}

proof fn lemma_sample_bytes(s: i16)
    ensures
        sample_of(sample_lo(s), sample_hi(s)) == s,
{
}

proof fn lemma_bytes_sample(lo: u8, hi: u8)
    ensures
        sample_lo(sample_of(lo, hi)) == lo,
        sample_hi(sample_of(lo, hi)) == hi,
{
}

/// Decoding the encoding of samples gives back the samples.
pub proof fn lemma_decode_encode_pcm16(s: Seq<i16>)
    ensures
        decode_pcm16(encode_pcm16(s)) == s,
{
    let b = encode_pcm16(s);
    assert forall|i: int| 0 <= i < s.len() implies #[trigger] decode_pcm16(b)[i] == s[i] by {
        assert((2 * i) % 2 == 0 && (2 * i) / 2 == i);
        assert((2 * i + 1) % 2 == 1 && (2 * i + 1) / 2 == i);
        lemma_sample_bytes(s[i]);
    }
    assert(decode_pcm16(b) =~= s);
}

/// Encoding the samples of an even-length byte sequence gives back the bytes.
pub proof fn lemma_encode_decode_pcm16(b: Seq<u8>)
    requires
        b.len() % 2 == 0,
    ensures
        encode_pcm16(decode_pcm16(b)) == b,
{
    let s = decode_pcm16(b);
    assert forall|i: int| 0 <= i < b.len() implies #[trigger] encode_pcm16(s)[i] == b[i] by {
        let k = i / 2;
        lemma_bytes_sample(b[2 * k], b[2 * k + 1]);
        if i % 2 == 0 {
            assert(i == 2 * k);
        } else {
            assert(i == 2 * k + 1);
        }
    }
    assert(encode_pcm16(s) =~= b);
}

fn decode_sample(lo: u8, hi: u8) -> (s: i16)
    ensures
        s == sample_of(lo, hi),
{
    let u: i32 = lo as i32 + (hi as i32) * 256;
    if u >= 32768 {
        (u - 65536) as i16
    } else {
        u as i16
    }
}

/// Decodes PCM16LE bytes into samples. The byte count must be even: a
/// trailing half sample has no meaning.
pub fn pcm16le_bytes_to_samples(input: &[u8]) -> (out: Vec<i16>)
    requires
        input@.len() % 2 == 0,
    ensures
        out@ == decode_pcm16(input@),
{
    let n = input.len() / 2;
    let mut out: Vec<i16> = Vec::with_capacity(n);
    let mut k: usize = 0;
    while k < n
        invariant
            n == input@.len() / 2,
            2 * n == input.len(),
            input.len() == input@.len(),
            k <= n,
            out@ =~= decode_pcm16(input@).take(k as int),
        decreases n - k,
    {
        let s = decode_sample(input[2 * k], input[2 * k + 1]);
        out.push(s);
        k = k + 1;
    }
    assert(decode_pcm16(input@).take(n as int) =~= decode_pcm16(input@));
    out
}

/// Encodes samples as PCM16LE bytes, two per sample.
pub fn samples_to_pcm16le_bytes(input: &[i16]) -> (out: Vec<u8>)
    requires
        2 * input@.len() <= usize::MAX,
    ensures
        out@ == encode_pcm16(input@),
{
    let mut out: Vec<u8> = Vec::with_capacity(2 * input.len());
    let mut k: usize = 0;
    while k < input.len()
        invariant
            2 * input@.len() <= usize::MAX,
            k <= input@.len(),
            out@ =~= encode_pcm16(input@).take(2 * k as int),
        decreases input@.len() - k,
    {
        let s = input[k];
        let u: i32 = if s < 0 {
            s as i32 + 65536
        } else {
            s as i32
        };
        let lo = (u % 256) as u8;
        let hi = (u / 256) as u8;
        let ghost e = encode_pcm16(input@);
        assert((2 * k) % 2 == 0 && (2 * k) / 2 == k);
        assert((2 * k + 1) % 2 == 1 && (2 * k + 1) / 2 == k);
        assert(e[2 * k] == lo);
        assert(e[2 * k + 1] == hi);
        out.push(lo);
        out.push(hi);
        k = k + 1;
        assert(out@ =~= e.take(2 * k as int));
    }
    assert(encode_pcm16(input@).take(2 * input@.len() as int) =~= encode_pcm16(input@));
    out
}


/// `s` followed by zero samples up to a total of `n` samples.
pub open spec fn zero_padded(s: Seq<i16>, n: nat) -> Seq<i16> {
    s + Seq::new((n - s.len()) as nat, |i: int| 0i16)
}

/// The staging buffer in front of a fixed-block resampler: PCM16LE input
/// of any length comes in, complete blocks of `chunk()` samples go out in
/// order, and the shorter tail waits in `pending()` for more input.
#[derive(Debug)]
pub struct BlockStager {
    block_len: usize,
    pending: Vec<i16>,
}

impl BlockStager {
    #[verifier::type_invariant]
    spec fn inv(self) -> bool {
        &&& self.block_len > 0
        &&& self.pending@.len() < self.block_len
    }

    /// Samples per block.
    pub closed spec fn chunk(self) -> nat {
        self.block_len as nat
    }

    /// Samples received and not yet handed out in a block.
    pub closed spec fn pending(self) -> Seq<i16> {
        self.pending@
    }

    /// An empty stager for blocks of `block_len` samples.
    pub fn new(block_len: usize) -> (s: Self)
        requires
            block_len > 0,
        ensures
            s.chunk() == block_len,
            s.pending() == Seq::<i16>::empty(),
    {
        BlockStager { block_len, pending: Vec::new() }
    }

    /// Appends PCM16LE `bytes` (an even count) and hands out, in order,
    /// every complete block that the pending samples and the new ones make.
    pub fn push(&mut self, bytes: &[u8]) -> (blocks: Vec<Vec<i16>>)
        requires
            bytes@.len() % 2 == 0,
        ensures
            final(self).chunk() == old(self).chunk(),
            blocks@.map_values(|v: Vec<i16>| v@) == blocks_of(
                old(self).pending() + decode_pcm16(bytes@),
                old(self).chunk(),
            ),
            final(self).pending() == leftover_of(
                old(self).pending() + decode_pcm16(bytes@),
                old(self).chunk(),
            ),
            final(self).pending().len() < final(self).chunk(),
    {
        proof {
            use_type_invariant(&*self);
        }
        let mut incoming = pcm16le_bytes_to_samples(bytes);
        let mut all: Vec<i16> = Vec::new();
        std::mem::swap(&mut all, &mut self.pending);
        let ghost old_pending = all@;
        all.append(&mut incoming);
        let (blocks, rest) = cut_blocks(all.as_slice(), self.block_len);
        proof {
            crate::blocks::lemma_blocks_partition(all@, self.block_len as nat);
        }
        self.pending = rest;
        blocks
    }

    /// Hands out the pending samples zero-padded to a full block, or nothing
    /// when none are pending; either way nothing stays pending.
    pub fn flush(&mut self) -> (block: Option<Vec<i16>>)
        ensures
            final(self).chunk() == old(self).chunk(),
            final(self).pending() == Seq::<i16>::empty(),
            old(self).pending().len() == 0 ==> block is None,
            old(self).pending().len() > 0 ==> (block matches Some(b) && b@ == zero_padded(
                old(self).pending(),
                old(self).chunk(),
            )),
    {
        proof {
            use_type_invariant(&*self);
        }
        let mut v: Vec<i16> = Vec::new();
        std::mem::swap(&mut v, &mut self.pending);
        if v.len() == 0 {
            return None;
        }
        let ghost p = v@;
        let n = self.block_len;
        while v.len() < n
            invariant
                p.len() <= v@.len() <= n,
                v@ =~= zero_padded(p, v@.len() as nat),
            decreases n - v@.len(),
        {
            v.push(0);
        }
        Some(v)
    }

    /// Drops the pending samples.
    pub fn reset(&mut self)
        ensures
            final(self).chunk() == old(self).chunk(),
            final(self).pending() == Seq::<i16>::empty(),
    {
        proof {
            use_type_invariant(&*self);
        }
        self.pending = Vec::new();
    }
}


/// The byte count of `ms` milliseconds is exactly 48 bytes per millisecond,
/// so always a whole number of 16-bit samples.
pub proof fn lemma_min_bytes_whole_samples(ms: u32)
    ensures
        spec_min_bytes_24k_pcm16(ms) == 48 * ms,
        spec_min_bytes_24k_pcm16(ms) % 2 == 0,
{
    assert((48_000 * ms) / 1000 == 48 * ms) by (nonlinear_arith);
}

/// A flushed block is always exactly one block long and starts with the
/// pending samples.
pub proof fn lemma_flush_block_len(pending: Seq<i16>, chunk: nat)
    requires
        pending.len() <= chunk,
    ensures
        zero_padded(pending, chunk).len() == chunk,
        zero_padded(pending, chunk).take(pending.len() as int) == pending,
{
    assert(zero_padded(pending, chunk).take(pending.len() as int) =~= pending);
}

} // verus!
