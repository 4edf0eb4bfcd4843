//! Binary framing of audio payloads:
//! `[u64 seq][u64 unix_nanos][u32 sample_rate][u16 channels][u16 format_tag][bytes pcm]`,
//! every integer little endian, and the 44-byte header of a 24 kHz mono
//! PCM16 WAV file.

use byteorder::{ByteOrder, LittleEndian};
use vstd::bytes::*;
use vstd::prelude::*;

verus! {

/// `byteorder::LittleEndian`, the byte order of every integer in a frame.
#[verifier::external_type_specification]
#[verifier::external_body]
pub struct ExLittleEndian(LittleEndian);

/// `LittleEndian::read_u64` reads the first eight bytes of `buf` as a
/// little-endian `u64`; it panics when `buf` is shorter than that.
pub assume_specification[ <LittleEndian as ByteOrder>::read_u64 ](buf: &[u8]) -> (n: u64)
    requires
        buf@.len() >= 8,
    ensures
        n == spec_u64_from_le_bytes(buf@.subrange(0, 8)),
;

/// `LittleEndian::read_u32` reads the first four bytes of `buf` as a
/// little-endian `u32`; it panics when `buf` is shorter than that.
pub assume_specification[ <LittleEndian as ByteOrder>::read_u32 ](buf: &[u8]) -> (n: u32)
    requires
        buf@.len() >= 4,
    ensures
        n == spec_u32_from_le_bytes(buf@.subrange(0, 4)),
;

/// `LittleEndian::read_u16` reads the first two bytes of `buf` as a
/// little-endian `u16`; it panics when `buf` is shorter than that.
pub assume_specification[ <LittleEndian as ByteOrder>::read_u16 ](buf: &[u8]) -> (n: u16)
    requires
        buf@.len() >= 2,
    ensures
        n == spec_u16_from_le_bytes(buf@.subrange(0, 2)),
;

/// `LittleEndian::write_u64` overwrites the first eight bytes of `buf` with
/// the little-endian bytes of `n` and leaves the rest; it panics when `buf`
/// is shorter than that.
pub assume_specification[ <LittleEndian as ByteOrder>::write_u64 ](buf: &mut [u8], n: u64)
    requires
        old(buf)@.len() >= 8,
    ensures
        final(buf)@ == spec_u64_to_le_bytes(n) + old(buf)@.subrange(8, old(buf)@.len() as int),
;

/// `LittleEndian::write_u32` overwrites the first four bytes of `buf` with
/// the little-endian bytes of `n` and leaves the rest; it panics when `buf`
/// is shorter than that.
pub assume_specification[ <LittleEndian as ByteOrder>::write_u32 ](buf: &mut [u8], n: u32)
    requires
        old(buf)@.len() >= 4,
    ensures
        final(buf)@ == spec_u32_to_le_bytes(n) + old(buf)@.subrange(4, old(buf)@.len() as int),
;

/// `LittleEndian::write_u16` overwrites the first two bytes of `buf` with
/// the little-endian bytes of `n` and leaves the rest; it panics when `buf`
/// is shorter than that.
pub assume_specification[ <LittleEndian as ByteOrder>::write_u16 ](buf: &mut [u8], n: u16)
    requires
        old(buf)@.len() >= 2,
    ensures
        final(buf)@ == spec_u16_to_le_bytes(n) + old(buf)@.subrange(2, old(buf)@.len() as int),
;

/// Format tag of 16-bit signed little-endian PCM.
pub const FORMAT_PCM16LE: u16 = 1;

/// Format tag of 32-bit IEEE float samples.
pub const FORMAT_F32: u16 = 3;

/// Number of bytes of the fixed frame header.
pub const FRAME_HEADER_LEN: usize = 24;

/// The fixed header in front of every audio frame.
#[derive(Clone, Copy, Debug, PartialEq, Eq, Structural)]
pub struct AudioFrameHeader {
    pub seq: u64,
    pub ts_unix_nanos: u64,
    pub sample_rate: u32,
    pub channels: u16,
    /// 1 = PCM16LE, 3 = FLOAT32 (WAVE_FORMAT_IEEE_FLOAT)
    pub format_tag: u16,
}

/// The 24 bytes that encode `h`.
pub open spec fn header_bytes(h: AudioFrameHeader) -> Seq<u8> {
    spec_u64_to_le_bytes(h.seq) + spec_u64_to_le_bytes(h.ts_unix_nanos) + spec_u32_to_le_bytes(
        h.sample_rate,
    ) + spec_u16_to_le_bytes(h.channels) + spec_u16_to_le_bytes(h.format_tag)
}

/// A whole frame: the header's bytes followed by the payload.
pub open spec fn frame_bytes(h: AudioFrameHeader, payload: Seq<u8>) -> Seq<u8> {
    header_bytes(h) + payload
}

/// The header that the first 24 bytes of `buf` encode.
pub open spec fn parse_header(buf: Seq<u8>) -> AudioFrameHeader {
    AudioFrameHeader {
        seq: spec_u64_from_le_bytes(buf.subrange(0, 8)),
        ts_unix_nanos: spec_u64_from_le_bytes(buf.subrange(8, 16)),
        sample_rate: spec_u32_from_le_bytes(buf.subrange(16, 20)),
        channels: spec_u16_from_le_bytes(buf.subrange(20, 22)),
        format_tag: spec_u16_from_le_bytes(buf.subrange(22, 24)),
    }
}

/// What `unpack_frame` gives back for `buf`: nothing for a buffer shorter
/// than a header, else the header and the rest of the buffer.
pub open spec fn parse_frame(buf: Seq<u8>) -> Option<(AudioFrameHeader, Seq<u8>)> {
    if buf.len() < 24 {
        None
    } else {
        Some((parse_header(buf), buf.skip(24)))
    }
}

proof fn lemma_le_lengths()
    ensures
        forall|x: u64| #[trigger] spec_u64_to_le_bytes(x).len() == 8,
        forall|x: u32| #[trigger] spec_u32_to_le_bytes(x).len() == 4,
        forall|x: u16| #[trigger] spec_u16_to_le_bytes(x).len() == 2,
{
    lemma_auto_spec_u64_to_from_le_bytes();
    lemma_auto_spec_u32_to_from_le_bytes();
    lemma_auto_spec_u16_to_from_le_bytes();
}

fn le_u64(n: u64) -> (out: Vec<u8>)
    ensures
        out@ == spec_u64_to_le_bytes(n),
{
    let mut b: Vec<u8> = vec![0u8; 8];
    LittleEndian::write_u64(b.as_mut_slice(), n);
    proof {
        lemma_le_lengths();
    }
    assert(b@ =~= spec_u64_to_le_bytes(n));
    b
}

fn le_u32(n: u32) -> (out: Vec<u8>)
    ensures
        out@ == spec_u32_to_le_bytes(n),
{
    let mut b: Vec<u8> = vec![0u8; 4];
    LittleEndian::write_u32(b.as_mut_slice(), n);
    proof {
        lemma_le_lengths();
    }
    assert(b@ =~= spec_u32_to_le_bytes(n));
    b
}

fn le_u16(n: u16) -> (out: Vec<u8>)
    ensures
        out@ == spec_u16_to_le_bytes(n),
{
    let mut b: Vec<u8> = vec![0u8; 2];
    LittleEndian::write_u16(b.as_mut_slice(), n);
    proof {
        lemma_le_lengths();
    }
    assert(b@ =~= spec_u16_to_le_bytes(n));
    b
}

/// Encodes a frame: the 24 header bytes followed by `payload`.
pub fn pack_frame(h: &AudioFrameHeader, payload: &[u8]) -> (out: Vec<u8>)
    ensures
        out@ == frame_bytes(*h, payload@),
{
    let mut out = le_u64(h.seq);
    let mut b = le_u64(h.ts_unix_nanos);
    out.append(&mut b);
    let mut b = le_u32(h.sample_rate);
    out.append(&mut b);
    let mut b = le_u16(h.channels);
    out.append(&mut b);
    let mut b = le_u16(h.format_tag);
    out.append(&mut b);
    out.extend_from_slice(payload);
    assert(out@ =~= frame_bytes(*h, payload@));
    out
}

/// Decodes a frame: `None` when `buf` is shorter than a header, else the
/// header and the payload that follows it.
pub fn unpack_frame(buf: &[u8]) -> (r: Option<(AudioFrameHeader, &[u8])>)
    ensures
        r is None <==> buf@.len() < 24,
        r matches Some((h, rest)) ==> parse_frame(buf@) == Some((h, rest@)),
{
    if buf.len() < 24 {
        return None;
    }
    let seq = LittleEndian::read_u64(&buf[0..8]);
    let ts_unix_nanos = LittleEndian::read_u64(&buf[8..16]);
    let sample_rate = LittleEndian::read_u32(&buf[16..20]);
    let channels = LittleEndian::read_u16(&buf[20..22]);
    let format_tag = LittleEndian::read_u16(&buf[22..24]);
    let rest = &buf[24..buf.len()];
    let h = AudioFrameHeader { seq, ts_unix_nanos, sample_rate, channels, format_tag };
    assert(buf@.subrange(0, 8).subrange(0, 8) =~= buf@.subrange(0, 8));
    assert(buf@.subrange(8, 16).subrange(0, 8) =~= buf@.subrange(8, 16));
    assert(buf@.subrange(16, 20).subrange(0, 4) =~= buf@.subrange(16, 20));
    assert(buf@.subrange(20, 22).subrange(0, 2) =~= buf@.subrange(20, 22));
    assert(buf@.subrange(22, 24).subrange(0, 2) =~= buf@.subrange(22, 24));
    assert(rest@ =~= buf@.skip(24));
    Some((h, rest))
}

/// Decoding an encoded frame gives back its header and payload.
pub proof fn lemma_unpack_pack_roundtrip(h: AudioFrameHeader, payload: Seq<u8>)
    ensures
        parse_frame(frame_bytes(h, payload)) == Some((h, payload)),
{
    lemma_auto_spec_u64_to_from_le_bytes();
    lemma_auto_spec_u32_to_from_le_bytes();
    lemma_auto_spec_u16_to_from_le_bytes();
    let b = frame_bytes(h, payload);
    assert(b.subrange(0, 8) =~= spec_u64_to_le_bytes(h.seq));
    assert(b.subrange(8, 16) =~= spec_u64_to_le_bytes(h.ts_unix_nanos));
    assert(b.subrange(16, 20) =~= spec_u32_to_le_bytes(h.sample_rate));
    assert(b.subrange(20, 22) =~= spec_u16_to_le_bytes(h.channels));
    assert(b.subrange(22, 24) =~= spec_u16_to_le_bytes(h.format_tag));
    assert(b.skip(24) =~= payload);
    assert(parse_header(b) == h);
}

/// Encoding what was decoded from a buffer of at least a header's length
/// gives back that buffer byte for byte.
pub proof fn lemma_pack_unpack_roundtrip(buf: Seq<u8>)
    requires
        buf.len() >= 24,
    ensures
        parse_frame(buf) matches Some((h, rest)) && frame_bytes(h, rest) == buf,
{
    lemma_auto_spec_u64_to_from_le_bytes();
    lemma_auto_spec_u32_to_from_le_bytes();
    lemma_auto_spec_u16_to_from_le_bytes();
    let h = parse_header(buf);
    assert(spec_u64_to_le_bytes(h.seq) == buf.subrange(0, 8));
    assert(spec_u64_to_le_bytes(h.ts_unix_nanos) == buf.subrange(8, 16));
    assert(spec_u32_to_le_bytes(h.sample_rate) == buf.subrange(16, 20));
    assert(spec_u16_to_le_bytes(h.channels) == buf.subrange(20, 22));
    assert(spec_u16_to_le_bytes(h.format_tag) == buf.subrange(22, 24));
    assert(frame_bytes(h, buf.skip(24)) =~= buf);
}


/// The ASCII bytes of a four-letter RIFF chunk tag.
pub open spec fn tag_bytes(a: u8, b: u8, c: u8, d: u8) -> Seq<u8> {
    seq![a, b, c, d]
}

/// The 44-byte header of a RIFF/WAVE file holding `data_len` bytes of
/// 24 kHz, mono, 16-bit PCM: "RIFF", size - 8, "WAVE", a 16-byte "fmt "
/// chunk (PCM, 1 channel, 24000 Hz, 48000 bytes/s, block align 2,
/// 16 bits), then "data" and its length.
pub open spec fn wav_header_bytes(data_len: u32) -> Seq<u8> {
    tag_bytes(0x52, 0x49, 0x46, 0x46) + spec_u32_to_le_bytes((36 + data_len) as u32) + tag_bytes(
        0x57,
        0x41,
        0x56,
        0x45,
    ) + tag_bytes(0x66, 0x6d, 0x74, 0x20) + spec_u32_to_le_bytes(16) + spec_u16_to_le_bytes(1)
        + spec_u16_to_le_bytes(1) + spec_u32_to_le_bytes(24_000) + spec_u32_to_le_bytes(48_000)
        + spec_u16_to_le_bytes(2) + spec_u16_to_le_bytes(16) + tag_bytes(0x64, 0x61, 0x74, 0x61)
        + spec_u32_to_le_bytes(data_len)
}

fn push_tag(out: &mut Vec<u8>, a: u8, b: u8, c: u8, d: u8)
    ensures
        final(out)@ == old(out)@ + tag_bytes(a, b, c, d),
{
    out.push(a);
    out.push(b);
    out.push(c);
    out.push(d);
    assert(final(out)@ =~= old(out)@ + tag_bytes(a, b, c, d));
}

/// The header that precedes `data_len` bytes of 24 kHz mono PCM16 samples
/// in a WAV file. The RIFF size field, `36 + data_len`, must fit in a `u32`.
pub fn wav_header_pcm16_mono_24k(data_len: u32) -> (out: Vec<u8>)
    requires
        data_len <= u32::MAX - 36,
    ensures
        out@ == wav_header_bytes(data_len),
        out@.len() == 44,
{
    let byte_rate: u32 = 24_000u32 * 16 / 8;
    let block_align: u16 = 16 / 8;
    let mut out: Vec<u8> = Vec::new();
    push_tag(&mut out, 0x52, 0x49, 0x46, 0x46);
    let mut b = le_u32(36 + data_len);
    out.append(&mut b);
    push_tag(&mut out, 0x57, 0x41, 0x56, 0x45);
    push_tag(&mut out, 0x66, 0x6d, 0x74, 0x20);
    let mut b = le_u32(16);
    out.append(&mut b);
    let mut b = le_u16(1);
    out.append(&mut b);
    let mut b = le_u16(1);
    out.append(&mut b);
    let mut b = le_u32(24_000);
    out.append(&mut b);
    let mut b = le_u32(byte_rate);
    out.append(&mut b);
    let mut b = le_u16(block_align);
    out.append(&mut b);
    let mut b = le_u16(16);
    out.append(&mut b);
    push_tag(&mut out, 0x64, 0x61, 0x74, 0x61);
    let mut b = le_u32(data_len);
    out.append(&mut b);
    proof {
        lemma_le_lengths();
    }
    assert(out@ =~= wav_header_bytes(data_len));
    out
}

} // verus!
