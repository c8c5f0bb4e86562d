use kitchen_companion::audio::{
    append_left, beep, mean_square, to_stereo, SAMPLE_RATE_HZ, SILENCE_FRAMES, TONE_FRAMES,
};
use kitchen_companion::bytes::{be16_bytes, le32_bytes, sample_bytes, sample_from_bytes};

#[test]
fn samples_and_their_bytes() {
    for x in [0i16, 1, -1, 255, 256, -256, 32767, -32768] {
        assert_eq!(sample_bytes(x), x.to_le_bytes());
        assert_eq!(sample_from_bytes(sample_bytes(x)[0], sample_bytes(x)[1]), x);
    }
    assert_eq!(le32_bytes(0x1234_5678), [0x78, 0x56, 0x34, 0x12]);
    assert_eq!(be16_bytes(0x14c3), [0x14, 0xc3]);
}

#[test]
fn level_of_nothing_is_zero() {
    assert_eq!(mean_square(&[]), 0);
    assert_eq!(mean_square(&[1, 2, 3]), 0);
}

#[test]
fn level_uses_the_left_channel_only() {
    // Left 3 and -4, right loud; then an incomplete frame.
    let block = [3, 0, 0xff, 0x7f, 0xfc, 0xff, 0xff, 0x7f, 9, 9];
    assert_eq!(mean_square(&block), (9 + 16) / 2);
}

#[test]
fn level_never_exceeds_full_scale() {
    let mut block = Vec::new();
    for _ in 0..512 {
        block.extend_from_slice(&[0x00, 0x80, 0, 0]);
    }
    assert_eq!(mean_square(&block), 32768 * 32768);
}

#[test]
fn left_channel_is_appended_up_to_the_limit() {
    let mut pcm = vec![9, 9];
    append_left(&mut pcm, &[1, 2, 3, 4, 5, 6, 7, 8, 0, 0], 100);
    assert_eq!(pcm, vec![9, 9, 1, 2, 5, 6]);
    append_left(&mut pcm, &[1, 2, 3, 4, 5, 6, 7, 8], 8);
    assert_eq!(pcm, vec![9, 9, 1, 2, 5, 6, 1, 2]);
    append_left(&mut pcm, &[1, 2, 3, 4], 8);
    assert_eq!(pcm.len(), 8);
}

#[test]
fn mono_is_put_on_both_channels() {
    assert_eq!(to_stereo(&[1, 2, 3, 4, 5]), vec![1, 2, 1, 2, 3, 4, 3, 4]);
    assert!(to_stereo(&[]).is_empty());
    assert!(to_stereo(&[1]).is_empty());
}

#[test]
fn stereo_gives_mono_back() {
    let mono = [10, 11, 12, 13, 14, 15];
    let mut left = Vec::new();
    append_left(&mut left, &to_stereo(&mono), 1000);
    assert_eq!(left, mono);
}

#[test]
fn beep_is_the_tone_and_then_silence() {
    let mut tone = [0i16; TONE_FRAMES];
    tone[0] = -2;
    tone[TONE_FRAMES - 1] = 0x0102;
    let out = beep(&tone);
    assert_eq!(TONE_FRAMES * 1000, SAMPLE_RATE_HZ as usize * 80);
    assert_eq!(SILENCE_FRAMES * 1000, SAMPLE_RATE_HZ as usize * 150);
    assert_eq!(out.len(), (1280 + 2400) * 4);
    assert_eq!(&out[0..4], &[0xfe, 0xff, 0xfe, 0xff]);
    assert_eq!(&out[1279 * 4..1280 * 4], &[2, 1, 2, 1]);
    assert!(out[1280 * 4..].iter().all(|&b| b == 0));
}
