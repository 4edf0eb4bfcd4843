use vamq::vad::{VadAccumulator, VadHeader, VadStep};

fn header(sr: u32, flags: u32) -> VadHeader {
    VadHeader {
        session_id: "s1".to_string(),
        seq: 7,
        ts_ns: 0,
        sr,
        ch: 1,
        fmt: "s16le".to_string(),
        flags,
    }
}

fn accepted(step: &VadStep) -> (bool, Option<Vec<u8>>, bool, bool, bool) {
    match step {
        VadStep::Accepted { reset_upsampler, upsample, unsupported_rate, flush_upsampler, commit } => (
            *reset_upsampler,
            upsample.clone(),
            *unsupported_rate,
            *flush_upsampler,
            *commit,
        ),
        VadStep::Rejected => panic!("rejected"),
    }
}

#[test]
fn segment_at_target_rate_is_committed_and_padded() {
    let mut acc = VadAccumulator::new(24_000, 8);
    let h = header(24_000, 0b001);
    let step = acc.on_message(&h, vec![1, 2]);
    assert_eq!(accepted(&step), (true, None, false, false, false));
    let h2 = header(24_000, 0b010);
    let step = acc.on_message(&h2, vec![3, 4]);
    assert_eq!(accepted(&step), (false, None, false, false, true));
    let c = acc.commit(&h2);
    assert_eq!(c.session_id, "s1");
    assert_eq!(c.seq, 7);
    assert_eq!(c.pcm24k_s16le, vec![1, 2, 3, 4, 0, 0, 0, 0]);
    assert!(acc.acc.is_empty());
}

#[test]
fn long_segment_is_not_padded_and_empty_one_stays_empty() {
    let mut acc = VadAccumulator::new(24_000, 2);
    let h = header(24_000, 0b011);
    acc.on_message(&h, vec![1, 2, 3, 4]);
    assert_eq!(acc.commit(&h).pcm24k_s16le, vec![1, 2, 3, 4]);
    let step = acc.on_message(&h, vec![]);
    assert_eq!(accepted(&step), (true, None, false, false, true));
    assert!(acc.commit(&h).pcm24k_s16le.is_empty());
}

#[test]
fn start_flag_drops_earlier_audio() {
    let mut acc = VadAccumulator::new(24_000, 0);
    acc.on_message(&header(24_000, 0), vec![9, 9]);
    acc.on_message(&header(24_000, 0b101), vec![1, 1]);
    assert_eq!(acc.acc, vec![1, 1]);
}

#[test]
fn sixteen_khz_audio_goes_through_the_upsampler() {
    let mut acc = VadAccumulator::new(24_000, 0);
    let step = acc.on_message(&header(16_000, 0b011), vec![5, 6]);
    assert_eq!(accepted(&step), (true, Some(vec![5, 6]), false, true, true));
    assert!(acc.acc.is_empty());
    acc.append_upsampled(vec![1, 2, 3]);
    assert_eq!(acc.acc, vec![1, 2, 3]);
}

#[test]
fn other_rates_are_dropped() {
    let mut acc = VadAccumulator::new(24_000, 0);
    let step = acc.on_message(&header(44_100, 0), vec![5, 6]);
    assert_eq!(accepted(&step), (false, None, true, false, false));
    assert!(acc.acc.is_empty());
}

#[test]
fn unsupported_format_or_channels_is_rejected() {
    let mut acc = VadAccumulator::new(24_000, 0);
    acc.on_message(&header(24_000, 0), vec![1]);
    let mut h = header(24_000, 0b001);
    h.fmt = "f32le".to_string();
    assert_eq!(acc.on_message(&h, vec![2]), VadStep::Rejected);
    let mut h = header(24_000, 0b001);
    h.ch = 2;
    assert_eq!(acc.on_message(&h, vec![2]), VadStep::Rejected);
    assert_eq!(acc.acc, vec![1]);
}

#[test]
fn a_segment_gathers_its_payloads_in_order() {
    let mut acc = VadAccumulator::new(24_000, 0);
    acc.on_message(&header(24_000, 0), vec![42]);
    acc.on_message(&header(24_000, 0b101), vec![1, 2]);
    acc.on_message(&header(24_000, 0), vec![]);
    acc.on_message(&header(24_000, 0), vec![3]);
    let end = header(24_000, 0b010);
    let step = acc.on_message(&end, vec![4, 5]);
    assert_eq!(accepted(&step), (false, None, false, false, true));
    assert_eq!(acc.commit(&end).pcm24k_s16le, vec![1, 2, 3, 4, 5]);
}
