use vamq::pcm::{min_bytes_24k_pcm16, pcm16le_bytes_to_samples, samples_to_pcm16le_bytes, BlockStager};

#[test]
fn min_bytes_is_48_bytes_per_millisecond() {
    assert_eq!(min_bytes_24k_pcm16(0), 0);
    assert_eq!(min_bytes_24k_pcm16(1), 48);
    assert_eq!(min_bytes_24k_pcm16(20), 960);
    assert_eq!(min_bytes_24k_pcm16(100), 4800);
    assert_eq!(min_bytes_24k_pcm16(1000), 48_000);
}

#[test]
fn decodes_little_endian_twos_complement() {
    let s = pcm16le_bytes_to_samples(&[0x00, 0x80, 0xff, 0x7f, 0xff, 0xff, 0x01, 0x00]);
    assert_eq!(s, vec![i16::MIN, i16::MAX, -1, 1]);
    assert!(pcm16le_bytes_to_samples(&[]).is_empty());
}

#[test]
fn encodes_little_endian_twos_complement() {
    let b = samples_to_pcm16le_bytes(&[i16::MIN, i16::MAX, -1, 1, 0, 258]);
    assert_eq!(b, vec![0x00, 0x80, 0xff, 0x7f, 0xff, 0xff, 0x01, 0x00, 0, 0, 2, 1]);
}

#[test]
fn pcm16_roundtrips() {
    let samples: Vec<i16> = (-300..300).map(|i: i32| (i * 109) as i16).collect();
    let bytes = samples_to_pcm16le_bytes(&samples);
    assert_eq!(pcm16le_bytes_to_samples(&bytes), samples);
    let raw: Vec<u8> = (0..=255u8).collect();
    assert_eq!(samples_to_pcm16le_bytes(&pcm16le_bytes_to_samples(&raw)), raw);
}

#[test]
fn stager_hands_out_full_blocks_in_order() {
    let mut st = BlockStager::new(3);
    let bytes = samples_to_pcm16le_bytes(&[1, 2, 3, 4, 5, 6, 7]);
    let blocks = st.push(&bytes);
    assert_eq!(blocks, vec![vec![1, 2, 3], vec![4, 5, 6]]);
    let blocks = st.push(&samples_to_pcm16le_bytes(&[8]));
    assert!(blocks.is_empty());
    let blocks = st.push(&samples_to_pcm16le_bytes(&[9, 10]));
    assert_eq!(blocks, vec![vec![7, 8, 9]]);
    assert_eq!(st.flush(), Some(vec![10, 0, 0]));
    assert_eq!(st.flush(), None);
}

#[test]
fn stager_push_of_nothing_hands_out_nothing() {
    let mut st = BlockStager::new(2);
    assert!(st.push(&[]).is_empty());
    assert_eq!(st.flush(), None);
}

#[test]
fn stager_reset_drops_pending_samples() {
    let mut st = BlockStager::new(4);
    assert!(st.push(&samples_to_pcm16le_bytes(&[1, 2])).is_empty());
    st.reset();
    assert_eq!(st.flush(), None);
    assert_eq!(st.push(&samples_to_pcm16le_bytes(&[5, 6, 7, 8])), vec![vec![5, 6, 7, 8]]);
}
