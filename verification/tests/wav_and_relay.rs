use kitchen_companion::relay::{
    talk_request, TalkOutcome, TalkResponse, CHUNK_BYTES, STATUS_OK, TIMEOUT_SECS, TIMING_HEADER,
};
use kitchen_companion::wav::wav_header;

fn le32(h: &[u8], at: usize) -> u32 {
    u32::from_le_bytes([h[at], h[at + 1], h[at + 2], h[at + 3]])
}

fn le16(h: &[u8], at: usize) -> u16 {
    u16::from_le_bytes([h[at], h[at + 1]])
}

#[test]
fn header_of_three_seconds() {
    let h = wav_header(96000, 16000);
    assert_eq!(&h[0..4], b"RIFF");
    assert_eq!(le32(&h, 4), 96036);
    assert_eq!(&h[8..16], b"WAVEfmt ");
    assert_eq!(le32(&h, 16), 16);
    assert_eq!(le16(&h, 20), 1);
    assert_eq!(le16(&h, 22), 1);
    assert_eq!(le32(&h, 24), 16000);
    assert_eq!(le32(&h, 28), 32000);
    assert_eq!(le16(&h, 32), 2);
    assert_eq!(le16(&h, 34), 16);
    assert_eq!(&h[36..40], b"data");
    assert_eq!(le32(&h, 40), 96000);
}

#[test]
fn header_at_the_limits() {
    let empty = wav_header(0, 0);
    assert_eq!(le32(&empty, 4), 36);
    assert_eq!(le32(&empty, 28), 0);
    assert_eq!(le32(&empty, 40), 0);
    let full = wav_header(u32::MAX - 36, u32::MAX / 2);
    assert_eq!(le32(&full, 4), u32::MAX);
    assert_eq!(le32(&full, 24), 0x7fff_ffff);
    assert_eq!(le32(&full, 28), 0xffff_fffe);
    assert_eq!(le32(&full, 40), u32::MAX - 36);
}

#[test]
fn headers_differ_with_length_and_rate() {
    assert_ne!(wav_header(10, 16000), wav_header(12, 16000));
    assert_ne!(wav_header(10, 16000), wav_header(10, 8000));
}

#[test]
fn request_announces_its_body() {
    let pcm = vec![7u8; 96000];
    let r = talk_request("https://relay.example/talk", &pcm, 16000);
    assert_eq!(r.url, "https://relay.example/talk");
    assert_eq!(r.content_type, "audio/wav");
    assert_eq!(r.content_length, "96044");
    assert_eq!(r.header, wav_header(96000, 16000));
    assert_eq!(r.pcm, &pcm[..]);
    assert_eq!(r.content_length.parse::<usize>(), Ok(r.header.len() + r.pcm.len()));
    assert_eq!(r.headers(), [("Content-Type", "audio/wav"), ("Content-Length", "96044")]);
    assert_eq!(TIMEOUT_SECS, 30);
    assert_eq!(TIMING_HEADER, "X-Timing");
}

#[test]
fn request_for_an_empty_recording() {
    assert_eq!(talk_request("", &[], 16000).content_length, "44");
}

#[test]
fn reply_is_gathered_until_an_empty_read() {
    let mut r = TalkResponse::new(200, Some("stt=1"));
    let mut chunk = vec![0u8; CHUNK_BYTES];
    chunk[0] = 1;
    chunk[1] = 2;
    chunk[2] = 3;
    assert!(r.absorb(&chunk, 2));
    assert!(r.absorb(&chunk, 3));
    assert!(!r.absorb(&chunk, 0));
    assert_eq!(r.body, vec![1, 2, 1, 2, 3]);
    assert_eq!(r.status, 200);
    assert_eq!(r.timing, "stt=1");
    assert!(r.absorb(&chunk, CHUNK_BYTES));
    assert_eq!(r.body.len(), 5 + CHUNK_BYTES);
}

#[test]
fn reply_without_timing() {
    let r = TalkResponse::new(404, None);
    assert_eq!(r.timing, "");
    assert_eq!(r.status, 404);
    assert!(r.body.is_empty());
}

#[test]
fn reports() {
    let ok = TalkOutcome::Replied(TalkResponse::new(STATUS_OK, Some("stt=1667;llm=1193")));
    assert_eq!(ok.report_text(6500), "OK 6500ms (dev) / stt=1667;llm=1193");
    let refused = TalkOutcome::Replied(TalkResponse::new(429, Some("ignored")));
    assert_eq!(refused.report_text(332), "Relay error: 429 (332ms)");
    assert_eq!(TalkOutcome::Failed.report_text(0), "Send FAILED (0ms)");
    assert_eq!(
        TalkOutcome::Failed.report_text(u128::MAX),
        "Send FAILED (340282366920938463463374607431768211455ms)"
    );
}
