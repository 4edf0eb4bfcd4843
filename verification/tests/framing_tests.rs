use vamq::framing::{
    pack_frame, unpack_frame, wav_header_pcm16_mono_24k, AudioFrameHeader, FORMAT_F32,
    FORMAT_PCM16LE, FRAME_HEADER_LEN,
};

fn header() -> AudioFrameHeader {
    AudioFrameHeader {
        seq: 0x0102030405060708,
        ts_unix_nanos: 42,
        sample_rate: 16_000,
        channels: 1,
        format_tag: FORMAT_PCM16LE,
    }
}

#[test]
fn pack_frame_writes_little_endian_header_then_payload() {
    let out = pack_frame(&header(), &[9, 8, 7]);
    let expected: Vec<u8> = vec![
        8, 7, 6, 5, 4, 3, 2, 1, // seq
        42, 0, 0, 0, 0, 0, 0, 0, // ts
        0x80, 0x3e, 0, 0, // 16000
        1, 0, // channels
        1, 0, // format
        9, 8, 7,
    ];
    assert_eq!(out, expected);
    assert_eq!(FRAME_HEADER_LEN, 24);
}

#[test]
fn unpack_frame_rejects_short_buffers() {
    assert!(unpack_frame(&[0u8; 23]).is_none());
    assert!(unpack_frame(&[]).is_none());
    let (h, rest) = unpack_frame(&[0u8; 24]).unwrap();
    assert_eq!(h.seq, 0);
    assert!(rest.is_empty());
}

#[test]
fn unpack_of_pack_gives_back_header_and_payload() {
    let h = AudioFrameHeader {
        seq: u64::MAX,
        ts_unix_nanos: 1_700_000_000_000_000_000,
        sample_rate: 24_000,
        channels: 2,
        format_tag: FORMAT_F32,
    };
    let payload: Vec<u8> = (0..=255).collect();
    let buf = pack_frame(&h, &payload);
    let (h2, rest) = unpack_frame(&buf).unwrap();
    assert_eq!(h2, h);
    assert_eq!(rest, &payload[..]);
}

#[test]
fn pack_of_unpack_gives_back_the_buffer() {
    let buf: Vec<u8> = (0..40u8).map(|i| i.wrapping_mul(37)).collect();
    let (h, rest) = unpack_frame(&buf).unwrap();
    assert_eq!(pack_frame(&h, rest), buf);
}

#[test]
fn wav_header_is_riff_wave_pcm16_mono_24k() {
    let h = wav_header_pcm16_mono_24k(100);
    assert_eq!(h.len(), 44);
    assert_eq!(&h[0..4], b"RIFF");
    assert_eq!(&h[4..8], &136u32.to_le_bytes());
    assert_eq!(&h[8..12], b"WAVE");
    assert_eq!(&h[12..16], b"fmt ");
    assert_eq!(&h[16..20], &16u32.to_le_bytes());
    assert_eq!(&h[20..22], &1u16.to_le_bytes());
    assert_eq!(&h[22..24], &1u16.to_le_bytes());
    assert_eq!(&h[24..28], &24_000u32.to_le_bytes());
    assert_eq!(&h[28..32], &48_000u32.to_le_bytes());
    assert_eq!(&h[32..34], &2u16.to_le_bytes());
    assert_eq!(&h[34..36], &16u16.to_le_bytes());
    assert_eq!(&h[36..40], b"data");
    assert_eq!(&h[40..44], &100u32.to_le_bytes());
}

#[test]
fn wav_header_at_largest_data_length() {
    let h = wav_header_pcm16_mono_24k(u32::MAX - 36);
    assert_eq!(&h[4..8], &u32::MAX.to_le_bytes());
}
