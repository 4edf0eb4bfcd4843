use vamq::ue_framer::{words_to_le_bytes, UeFramer, SAMPLES_PER_FRAME};

#[test]
fn frame_is_160_ms_at_48k() {
    assert_eq!(SAMPLES_PER_FRAME, 7680);
}

#[test]
fn words_encode_as_f32_little_endian_bytes() {
    let xs = [1.0f32, -0.5, 0.25];
    let bits: Vec<u32> = xs.iter().map(|x| x.to_bits()).collect();
    let expected: Vec<u8> = xs.iter().flat_map(|x| x.to_le_bytes()).collect();
    assert_eq!(words_to_le_bytes(&bits), expected);
}

#[test]
fn framer_cuts_full_frames_and_pads_the_tail() {
    let mut f = UeFramer::new();
    let samples: Vec<u32> = (0..(SAMPLES_PER_FRAME as u32 + 10)).collect();
    let frames = f.push(&samples[..100]);
    assert!(frames.is_empty());
    let frames = f.push(&samples[100..]);
    assert_eq!(frames.len(), 1);
    assert_eq!(frames[0].len(), 30720);
    assert_eq!(frames[0], words_to_le_bytes(&samples[..SAMPLES_PER_FRAME]));
    let tail = f.flush_pad().unwrap();
    assert_eq!(tail.len(), 30720);
    assert_eq!(&tail[..40], &words_to_le_bytes(&samples[SAMPLES_PER_FRAME..])[..]);
    assert!(tail[40..].iter().all(|b| *b == 0));
    assert!(f.flush_pad().is_none());
}

#[test]
fn framer_reset_and_default() {
    let mut f = UeFramer::default();
    assert!(f.push(&[1, 2, 3]).is_empty());
    f.reset();
    assert!(f.flush_pad().is_none());
    let frames = f.push(&vec![7u32; 2 * SAMPLES_PER_FRAME]);
    assert_eq!(frames.len(), 2);
    assert!(f.flush_pad().is_none());
}
