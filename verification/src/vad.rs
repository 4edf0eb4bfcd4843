//! Voice-activity messages: the header that precedes each PCM payload, and
//! the accumulator that gathers a speech segment between its start and end
//! flags into one committed buffer of 24 kHz PCM16 audio.

use vstd::prelude::*;

verus! {

/// Header of one voice-activity message.
#[derive(Debug, Clone, PartialEq)]
pub struct VadHeader {
    pub session_id: String,
    pub seq: u64,
    pub ts_ns: u64,
    pub sr: u32,
    pub ch: u16,
    /// "s16le"
    pub fmt: String,
    /// bit0 = start, bit1 = end, bit2 = preroll
    pub flags: u32,
}

/// A finished speech segment.
#[derive(Debug, Clone, PartialEq)]
pub struct VadCommit {
    pub session_id: String,
    pub seq: u64,
    pub pcm24k_s16le: Vec<u8>,
}

/// Bit 0 of the flags: the message starts a segment.
pub open spec fn is_start(flags: u32) -> bool {
    (flags & 1u32) != 0
}

/// Bit 1 of the flags: the message ends a segment.
pub open spec fn is_end(flags: u32) -> bool {
    (flags & 2u32) != 0
}

/// The only accepted sample format.
pub open spec fn s16le() -> Seq<char> {
    seq!['s', '1', '6', 'l', 'e']
}

/// A message is accepted when it carries mono "s16le" audio.
pub open spec fn is_supported(h: VadHeader) -> bool {
    h.fmt@ == s16le() && h.ch == 1
}

/// Sample rate that goes through the 16 kHz to 24 kHz upsampler.
pub const UPSAMPLE_INPUT_RATE: u32 = 16_000;

/// What the owner of the upsampler does after a message was accepted.
#[derive(Debug, PartialEq)]
pub enum VadStep {
    /// The message was dropped (unsupported format or channel count);
    /// nothing changed.
    Rejected,
    /// The message was taken in.
    Accepted {
        /// Reset the upsampler (the message starts a segment).
        reset_upsampler: bool,
        /// Push these 16 kHz bytes through the upsampler and hand back its
        /// output with `append_upsampled`.
        upsample: Option<Vec<u8>>,
        /// The payload had a sample rate that is neither the target rate
        /// nor 16 kHz, and was dropped.
        unsupported_rate: bool,
        /// Flush the upsampler and hand back its tail with
        /// `append_upsampled` (a 16 kHz message that ends a segment).
        flush_upsampler: bool,
        /// Call `commit` (the message ends a segment).
        commit: bool,
    },
}

/// `step` accepts the message and asks for exactly these actions.
pub open spec fn accepted_as(
    step: VadStep,
    reset: bool,
    upsample: Option<Seq<u8>>,
    unsupported: bool,
    flush: bool,
    commit: bool,
) -> bool {
    match step {
        VadStep::Rejected => false,
        VadStep::Accepted {
            reset_upsampler,
            upsample: u,
            unsupported_rate,
            flush_upsampler,
            commit: c,
        } => {
            &&& reset_upsampler == reset
            &&& match u {
                Some(v) => upsample == Some(v@),
                None => upsample is None,
            }
            &&& unsupported_rate == unsupported
            &&& flush_upsampler == flush
            &&& c == commit
        },
    }
}

/// The gathered audio after one message: unchanged for an unsupported
/// message; else emptied first when the message starts a segment, then
/// extended by the payload when it is at the target rate.
pub open spec fn acc_after_message(
    acc: Seq<u8>,
    h: VadHeader,
    payload: Seq<u8>,
    target_sr: u32,
) -> Seq<u8> {
    if !is_supported(h) {
        acc
    } else {
        let start_acc = if is_start(h.flags) {
            Seq::<u8>::empty()
        } else {
            acc
        };
        if payload.len() > 0 && h.sr == target_sr {
            start_acc + payload
        } else {
            start_acc
        }
    }
}

/// Only a start flag ever removes gathered audio. A message without it
/// keeps the gathered audio as the front of the result and adds at most its
/// own payload; one at another rate than the target (its audio goes through
/// the upsampler, or is dropped) leaves the gathered audio exactly as it
/// was; one at the target rate appends exactly its payload when supported.
/// A supported message with the start flag leaves at most its own payload.
pub proof fn lemma_gathered_audio_kept(acc: Seq<u8>, h: VadHeader, p: Seq<u8>, target_sr: u32)
    ensures
        !is_start(h.flags) ==> {
            let r = acc_after_message(acc, h, p, target_sr);
            &&& acc.len() <= r.len() <= acc.len() + p.len()
            &&& r.take(acc.len() as int) == acc
        },
        !is_start(h.flags) && h.sr != target_sr ==> acc_after_message(acc, h, p, target_sr)
            == acc,
        !is_start(h.flags) && h.sr == target_sr && h.fmt@ == s16le() && h.ch == 1 ==> acc_after_message(
            acc,
            h,
            p,
            target_sr,
        ) == acc + p,
        is_start(h.flags) && h.fmt@ == s16le() && h.ch == 1 ==> acc_after_message(
            acc,
            h,
            p,
            target_sr,
        ).len() <= p.len(),
        !(h.fmt@ == s16le() && h.ch == 1) ==> acc_after_message(acc, h, p, target_sr) == acc,
{
    assert((acc + p).take(acc.len() as int) =~= acc);
    assert(acc.take(acc.len() as int) =~= acc);
    if p.len() == 0 {
        assert(acc + p =~= acc);
    }
}

/// The gathered audio after a run of messages, in order.
pub open spec fn acc_after_messages(
    acc: Seq<u8>,
    msgs: Seq<(VadHeader, Seq<u8>)>,
    target_sr: u32,
) -> Seq<u8>
    decreases msgs.len(),
{
    if msgs.len() == 0 {
        acc
    } else {
        acc_after_message(
            acc_after_messages(acc, msgs.drop_last(), target_sr),
            msgs.last().0,
            msgs.last().1,
            target_sr,
        )
    }
}

/// Across a run of messages none of which starts a segment, the audio
/// gathered before the run stays the front of what is gathered after it.
pub proof fn lemma_run_keeps_gathered(
    acc: Seq<u8>,
    msgs: Seq<(VadHeader, Seq<u8>)>,
    target_sr: u32,
)
    requires
        forall|i: int| 0 <= i < msgs.len() ==> !is_start(#[trigger] msgs[i].0.flags),
    ensures
        acc_after_messages(acc, msgs, target_sr).len() >= acc.len(),
        acc_after_messages(acc, msgs, target_sr).take(acc.len() as int) == acc,
    decreases msgs.len(),
{
    if msgs.len() == 0 {
        assert(acc.take(acc.len() as int) =~= acc);
    } else {
        let pre = msgs.drop_last();
        assert forall|i: int| 0 <= i < pre.len() implies !is_start(#[trigger] pre[i].0.flags) by {
            assert(pre[i] == msgs[i]);
        }
        lemma_run_keeps_gathered(acc, pre, target_sr);
        let mid = acc_after_messages(acc, pre, target_sr);
        assert(!is_start(msgs[msgs.len() - 1].0.flags));
        lemma_gathered_audio_kept(mid, msgs.last().0, msgs.last().1, target_sr);
        let r = acc_after_messages(acc, msgs, target_sr);
        assert(r.take(acc.len() as int) =~= mid.take(acc.len() as int));
    }
}

/// The payloads of a run of messages, one after the other.
pub open spec fn payloads_of(msgs: Seq<(VadHeader, Seq<u8>)>) -> Seq<u8> {
    msgs.map_values(|m: (VadHeader, Seq<u8>)| m.1).flatten_alt()
}

/// A segment at the target rate gathers exactly its payloads: after a run of
/// supported messages at the target rate whose first one starts a segment
/// and whose others do not, the gathered audio is the run's payloads in
/// order, whatever was gathered before.
pub proof fn lemma_segment_gathers_payloads(
    acc: Seq<u8>,
    msgs: Seq<(VadHeader, Seq<u8>)>,
    target_sr: u32,
)
    requires
        msgs.len() > 0,
        is_start(msgs[0].0.flags),
        forall|i: int| 0 < i < msgs.len() ==> !is_start(#[trigger] msgs[i].0.flags),
        forall|i: int|
            0 <= i < msgs.len() ==> is_supported(#[trigger] msgs[i].0) && msgs[i].0.sr
                == target_sr,
    ensures
        acc_after_messages(acc, msgs, target_sr) == payloads_of(msgs),
    decreases msgs.len(),
{
    let m = msgs.last();
    let pre = msgs.drop_last();
    assert(msgs.map_values(|m: (VadHeader, Seq<u8>)| m.1).drop_last() =~= pre.map_values(
        |m: (VadHeader, Seq<u8>)| m.1,
    ));
    let ps = msgs.map_values(|m: (VadHeader, Seq<u8>)| m.1);
    assert(ps.last() == m.1);
    assert(payloads_of(msgs) == payloads_of(pre) + m.1);
    assert(is_supported(msgs[msgs.len() - 1].0));
    if msgs.len() == 1 {
        assert(pre.map_values(|m: (VadHeader, Seq<u8>)| m.1) =~= Seq::<Seq<u8>>::empty());
        assert(payloads_of(pre) =~= Seq::<u8>::empty());
        assert(Seq::<u8>::empty() + m.1 =~= m.1);
        assert(msgs[0] == m);
    } else {
        assert forall|i: int| 0 < i < pre.len() implies !is_start(#[trigger] pre[i].0.flags) by {
            assert(pre[i] == msgs[i]);
        }
        assert forall|i: int| 0 <= i < pre.len() implies is_supported(#[trigger] pre[i].0)
            && pre[i].0.sr == target_sr by {
            assert(pre[i] == msgs[i]);
        }
        assert(pre[0] == msgs[0]);
        lemma_segment_gathers_payloads(acc, pre, target_sr);
        assert(!is_start(msgs[msgs.len() - 1].0.flags));
        let before = payloads_of(pre);
        if m.1.len() == 0 {
            assert(before + m.1 =~= before);
        }
    }
}

/// `acc` as it is committed: zero-padded to `min` bytes when it holds some
/// audio but fewer than `min` bytes.
pub open spec fn committed_audio(acc: Seq<u8>, min: nat) -> Seq<u8> {
    if 0 < acc.len() < min {
        acc + Seq::new((min - acc.len()) as nat, |i: int| 0u8)
    } else {
        acc
    }
}

/// Gathers the audio of one speech segment at the target rate.
#[derive(Debug)]
pub struct VadAccumulator {
    pub acc: Vec<u8>,
    pub min_commit_bytes: usize,
    pub target_sr: u32,
}

impl VadAccumulator {
    /// An empty accumulator.
    pub fn new(target_sr: u32, min_commit_bytes: usize) -> (a: Self)
        ensures
            a.acc@ == Seq::<u8>::empty(),
            a.min_commit_bytes == min_commit_bytes,
            a.target_sr == target_sr,
    {
        VadAccumulator { acc: Vec::new(), min_commit_bytes, target_sr }
    }

    /// Takes in one message. A message of another format than mono
    /// "s16le" is rejected and changes nothing. Otherwise a start flag
    /// empties the accumulator first, a non-empty payload at the target
    /// rate is appended, one at 16 kHz is handed out for upsampling, one at
    /// any other rate is dropped, and an end flag asks for a commit (and, at
    /// 16 kHz, for the upsampler's tail first).
    pub fn on_message(&mut self, header: &VadHeader, payload: Vec<u8>) -> (step: VadStep)
        ensures
            final(self).min_commit_bytes == old(self).min_commit_bytes,
            final(self).target_sr == old(self).target_sr,
            !is_supported(*header) ==> step is Rejected,
            final(self).acc@ == acc_after_message(
                old(self).acc@,
                *header,
                payload@,
                old(self).target_sr,
            ),
            !is_start(header.flags) ==> final(self).acc@.len() >= old(self).acc@.len()
                && final(self).acc@.take(old(self).acc@.len() as int) == old(self).acc@,
            !is_start(header.flags) && header.sr != old(self).target_sr ==> final(self).acc@
                == old(self).acc@,
            is_supported(*header) && is_start(header.flags) ==> final(self).acc@.len()
                <= payload@.len(),
            is_supported(*header) ==> {
                let non_empty = payload@.len() > 0;
                let direct = non_empty && header.sr == old(self).target_sr;
                let up = non_empty && header.sr != old(self).target_sr && header.sr
                    == UPSAMPLE_INPUT_RATE;
                &&& accepted_as(
                    step,
                    is_start(header.flags),
                    if up {
                        Some(payload@)
                    } else {
                        None
                    },
                    non_empty && !direct && !up,
                    is_end(header.flags) && header.sr == UPSAMPLE_INPUT_RATE,
                    is_end(header.flags),
                )
            },
    {
        let fmt = String::from_str("s16le");
        proof {
            reveal_strlit("s16le");
        }
        assert(fmt@ =~= s16le());
        if !(header.fmt == fmt && header.ch == 1) {
            return VadStep::Rejected;
        }
        let start = (header.flags & 0b001) != 0;
        let end = (header.flags & 0b010) != 0;
        if start {
            self.acc.clear();
        }
        let mut upsample: Option<Vec<u8>> = None;
        let mut unsupported_rate = false;
        if payload.len() > 0 {
            if header.sr == self.target_sr {
                let mut p = payload;
                self.acc.append(&mut p);
            } else if header.sr == UPSAMPLE_INPUT_RATE {
                upsample = Some(payload);
            } else {
                unsupported_rate = true;
            }
        }
        VadStep::Accepted {
            reset_upsampler: start,
            upsample,
            unsupported_rate,
            flush_upsampler: end && header.sr == UPSAMPLE_INPUT_RATE,
            commit: end,
        }
    }

    /// Appends audio that the upsampler produced.
    pub fn append_upsampled(&mut self, bytes: Vec<u8>)
        ensures
            final(self).acc@ == old(self).acc@ + bytes@,
            final(self).min_commit_bytes == old(self).min_commit_bytes,
            final(self).target_sr == old(self).target_sr,
    {
        let mut b = bytes;
        self.acc.append(&mut b);
    }

    /// Closes the segment: hands out the gathered audio, zero-padded to
    /// `min_commit_bytes` when it holds some but fewer bytes, under the
    /// header's session and sequence number, and starts empty again.
    pub fn commit(&mut self, header: &VadHeader) -> (c: VadCommit)
        ensures
            c.session_id@ == header.session_id@,
            c.seq == header.seq,
            c.pcm24k_s16le@ == committed_audio(old(self).acc@, old(self).min_commit_bytes as nat),
            final(self).acc@ == Seq::<u8>::empty(),
            final(self).min_commit_bytes == old(self).min_commit_bytes,
            final(self).target_sr == old(self).target_sr,
    {
        let mut pcm: Vec<u8> = Vec::new();
        std::mem::swap(&mut pcm, &mut self.acc);
        let ghost a = pcm@;
        let min = self.min_commit_bytes;
        if pcm.len() > 0 && pcm.len() < min {
            while pcm.len() < min
                invariant
                    0 < a.len() <= pcm@.len() <= min,
                    pcm@ =~= a + Seq::new((pcm@.len() - a.len()) as nat, |i: int| 0u8),
                decreases min - pcm@.len(),
            {
                pcm.push(0);
            }
        }
        VadCommit { session_id: header.session_id.clone(), seq: header.seq, pcm24k_s16le: pcm }
    }
}


/// Committing keeps the gathered audio as the front of the commit, pads
/// only a non-empty segment shorter than the minimum, to exactly the
/// minimum, with zero bytes, and commits an empty segment as empty.
pub proof fn lemma_committed_audio(acc: Seq<u8>, min: nat)
    ensures
        committed_audio(acc, min).take(acc.len() as int) == acc,
        acc.len() == 0 ==> committed_audio(acc, min).len() == 0,
        acc.len() > 0 ==> committed_audio(acc, min).len() == if acc.len() < min {
            min
        } else {
            acc.len()
        },
        forall|i: int|
            acc.len() <= i < committed_audio(acc, min).len() ==> #[trigger] committed_audio(
                acc,
                min,
            )[i] == 0,
{
    assert(committed_audio(acc, min).take(acc.len() as int) =~= acc);
}

} // verus!
