//! Framing of 48 kHz mono 32-bit float audio into 160 ms frames for an
//! Unreal Engine audio stream. A sample is carried as the bit pattern of
//! its `f32` (`f32::to_bits`), so a frame's bytes are each pattern's four
//! little-endian bytes, exactly what `f32::to_le_bytes` gives.

use crate::blocks::{blocks_of, cut_blocks, leftover_of};
use vstd::bytes::*;
use vstd::prelude::*;

verus! {

/// Samples per 160 ms frame at 48 kHz.
pub const SAMPLES_PER_FRAME: usize = 48_000 * 160 / 1000;

/// The little-endian bytes of each 32-bit sample pattern, in order.
pub open spec fn le_words(s: Seq<u32>) -> Seq<u8>
    decreases s.len(),
{
    if s.len() == 0 {
        Seq::empty()
    } else {
        le_words(s.drop_last()) + spec_u32_to_le_bytes(s.last())
    }
}

/// Four bytes per sample.
pub proof fn lemma_le_words_len(s: Seq<u32>)
    ensures
        le_words(s).len() == 4 * s.len(),
    decreases s.len(),
{
    lemma_auto_spec_u32_to_from_le_bytes();
    if s.len() > 0 {
        lemma_le_words_len(s.drop_last());
    }
}

/// The frame bytes of each block of samples.
pub open spec fn frames_of(blocks: Seq<Seq<u32>>) -> Seq<Seq<u8>> {
    blocks.map_values(|b: Seq<u32>| le_words(b))
}

/// `s` followed by zero samples (the pattern of `0.0f32`) up to `n` samples.
pub open spec fn zero_padded_words(s: Seq<u32>, n: nat) -> Seq<u32> {
    s + Seq::new((n - s.len()) as nat, |i: int| 0u32)
}

/// The little-endian bytes of each sample pattern of `input`.
pub fn words_to_le_bytes(input: &[u32]) -> (out: Vec<u8>)
    ensures
        out@ == le_words(input@),
{
    let mut out: Vec<u8> = Vec::new();
    let mut k: usize = 0;
    while k < input.len()
        invariant
            k <= input@.len(),
            out@ == le_words(input@.take(k as int)),
        decreases input@.len() - k,
    {
        let mut b = u32_to_le_bytes(input[k]);
        out.append(&mut b);
        assert(input@.take(k + 1).drop_last() =~= input@.take(k as int));
        k = k + 1;
    }
    assert(input@.take(input@.len() as int) =~= input@);
    out
}

/// Accumulates 48 kHz samples and cuts them into 160 ms frames of
/// `SAMPLES_PER_FRAME` samples (30720 bytes each).
#[derive(Debug)]
pub struct UeFramer {
    samples_per_frame: usize,
    buf: Vec<u32>,
}

impl UeFramer {
    #[verifier::type_invariant]
    spec fn inv(self) -> bool {
        &&& self.samples_per_frame == SAMPLES_PER_FRAME
        &&& self.buf@.len() < SAMPLES_PER_FRAME
    }

    /// Samples received and not yet framed.
    pub closed spec fn pending(self) -> Seq<u32> {
        self.buf@
    }

    /// Samples per frame.
    pub closed spec fn frame_len(self) -> nat {
        self.samples_per_frame as nat
    }

    /// An empty framer.
    pub fn new() -> (f: Self)
        ensures
            f.pending() == Seq::<u32>::empty(),
            f.frame_len() == SAMPLES_PER_FRAME,
    {
        UeFramer { samples_per_frame: 48_000 * 160 / 1000, buf: Vec::new() }
    }

    /// Appends `src` and hands out, in order, the bytes of every complete
    /// frame that the pending samples and the new ones make.
    pub fn push(&mut self, src: &[u32]) -> (frames: Vec<Vec<u8>>)
        ensures
            frames@.map_values(|v: Vec<u8>| v@) == frames_of(
                blocks_of(old(self).pending() + src@, SAMPLES_PER_FRAME as nat),
            ),
            final(self).pending() == leftover_of(
                old(self).pending() + src@,
                SAMPLES_PER_FRAME as nat,
            ),
            final(self).pending().len() < SAMPLES_PER_FRAME,
            final(self).frame_len() == SAMPLES_PER_FRAME,
    {
        proof {
            use_type_invariant(&*self);
        }
        let mut all: Vec<u32> = Vec::new();
        std::mem::swap(&mut all, &mut self.buf);
        let mut incoming = vstd::slice::slice_to_vec(src);
        all.append(&mut incoming);
        let (blocks, rest) = cut_blocks(all.as_slice(), self.samples_per_frame);
        proof {
            crate::blocks::lemma_blocks_partition(all@, SAMPLES_PER_FRAME as nat);
        }
        self.buf = rest;
        let ghost bv = blocks@.map_values(|v: Vec<u32>| v@);
        let mut frames: Vec<Vec<u8>> = Vec::new();
        let mut k: usize = 0;
        while k < blocks.len()
            invariant
                k <= blocks@.len(),
                bv == blocks@.map_values(|v: Vec<u32>| v@),
                frames@.map_values(|v: Vec<u8>| v@) =~= frames_of(bv.take(k as int)),
            decreases blocks@.len() - k,
        {
            let ghost kk = k as int;
            let ghost before = frames@.map_values(|v: Vec<u8>| v@);
            assert(bv[kk] == blocks@[kk]@);
            let f = words_to_le_bytes(blocks[k].as_slice());
            frames.push(f);
            k = k + 1;
            assert(frames@.map_values(|v: Vec<u8>| v@) =~= before.push(le_words(bv[kk])));
            assert(frames_of(bv.take(k as int)) =~= frames_of(bv.take(kk)).push(le_words(bv[kk])));
        }
        assert(bv.take(blocks@.len() as int) =~= bv);
        frames
    }

    /// Hands out the pending samples zero-padded to a full frame, or nothing
    /// when none are pending; either way nothing stays pending.
    pub fn flush_pad(&mut self) -> (frame: Option<Vec<u8>>)
        ensures
            final(self).pending() == Seq::<u32>::empty(),
            final(self).frame_len() == SAMPLES_PER_FRAME,
            old(self).pending().len() == 0 ==> frame is None,
            old(self).pending().len() > 0 ==> (frame matches Some(f) && f@ == le_words(
                zero_padded_words(old(self).pending(), SAMPLES_PER_FRAME as nat),
            )),
    {
        proof {
            use_type_invariant(&*self);
        }
        let mut v: Vec<u32> = Vec::new();
        std::mem::swap(&mut v, &mut self.buf);
        if v.len() == 0 {
            return None;
        }
        let ghost p = v@;
        let n = self.samples_per_frame;
        while v.len() < n
            invariant
                p.len() <= v@.len() <= n,
                v@ =~= zero_padded_words(p, v@.len() as nat),
            decreases n - v@.len(),
        {
            v.push(0);
        }
        Some(words_to_le_bytes(v.as_slice()))
    }

    /// Drops the pending samples.
    pub fn reset(&mut self)
        ensures
            final(self).pending() == Seq::<u32>::empty(),
            final(self).frame_len() == SAMPLES_PER_FRAME,
    {
        proof {
            use_type_invariant(&*self);
        }
        self.buf = Vec::new();
    }
}

impl Default for UeFramer {
    fn default() -> (f: Self)
        ensures
            f.pending() == Seq::<u32>::empty(),
            f.frame_len() == SAMPLES_PER_FRAME,
    {
        Self::new()
    }
}


/// Every frame cut from a stream of samples is 30720 bytes long, and the
/// frames followed by the leftover samples are the stream itself.
pub proof fn lemma_frames_full(s: Seq<u32>)
    ensures
        forall|i: int|
            0 <= i < frames_of(blocks_of(s, SAMPLES_PER_FRAME as nat)).len() ==> (
            #[trigger] frames_of(blocks_of(s, SAMPLES_PER_FRAME as nat))[i]).len() == 30720,
        blocks_of(s, SAMPLES_PER_FRAME as nat).flatten() + leftover_of(s, SAMPLES_PER_FRAME as nat)
            == s,
{
    crate::blocks::lemma_blocks_partition(s, SAMPLES_PER_FRAME as nat);
    assert forall|i: int|
        0 <= i < frames_of(blocks_of(s, SAMPLES_PER_FRAME as nat)).len() implies (
    #[trigger] frames_of(blocks_of(s, SAMPLES_PER_FRAME as nat))[i]).len() == 30720 by {
        lemma_le_words_len(blocks_of(s, SAMPLES_PER_FRAME as nat)[i]);
    }
}

/// A padded final frame is 30720 bytes long.
pub proof fn lemma_flush_frame_len(pending: Seq<u32>)
    requires
        pending.len() < SAMPLES_PER_FRAME,
    ensures
        le_words(zero_padded_words(pending, SAMPLES_PER_FRAME as nat)).len() == 30720,
{
    lemma_le_words_len(zero_padded_words(pending, SAMPLES_PER_FRAME as nat));
}

} // verus!
