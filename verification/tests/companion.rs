use kitchen_companion::companion::{
    Companion, SpeakerWrite, Step, TouchOutcome, MAX_RECORD_BYTES, MIN_RECORD_BYTES,
};
use kitchen_companion::relay::{TalkOutcome, TalkResponse};
use kitchen_companion::screen::{meter_area, meter_bar, Color};

/// A block of 512 frames whose left channel counts and whose right channel is noise.
fn block() -> Vec<u8> {
    let mut out = Vec::new();
    for i in 0..512u16 {
        out.extend_from_slice(&i.to_le_bytes());
        out.extend_from_slice(&[0xaa, 0x55]);
    }
    out
}

fn left() -> Vec<u8> {
    (0..512u16).flat_map(|i| i.to_le_bytes()).collect()
}

/// Runs a turn up to the touch reading.
fn touch_with(c: &mut Companion, audio: &[u8], status: u8) -> TouchOutcome {
    assert_eq!(c.next(), Step::Read);
    c.hear(audio);
    assert_eq!(c.next(), Step::Meter);
    c.show_level(0);
    assert_eq!(c.next(), Step::Touch);
    c.touch(status)
}

/// A companion whose finger is down and whose beep is over.
fn recording() -> Companion {
    let mut c = Companion::new(vec![1, 2, 3, 4]);
    assert_eq!(touch_with(&mut c, &block(), 1), TouchOutcome::Started);
    assert_eq!(c.next(), Step::Play);
    c.played(SpeakerWrite::Accepted(4));
    assert_eq!(c.next(), Step::Read);
    c
}

fn replied(status: u16, body: &[u8]) -> TalkOutcome {
    let mut r = TalkResponse::new(status, Some("t"));
    r.absorb(body, body.len());
    TalkOutcome::Replied(r)
}

#[test]
fn limits() {
    assert_eq!(MAX_RECORD_BYTES, 16000 * 2 * 15);
    assert_eq!(MIN_RECORD_BYTES, 16000 * 2 / 2);
}

#[test]
fn meter_is_drawn_only_when_it_changes() {
    let mut c = Companion::new(vec![]);
    assert_eq!(c.hear(&[3, 0, 0, 0]), 9);
    assert!(c.show_level(0).is_none());
    c.touch(0);
    c.hear(&[]);
    let fills = c.show_level(42).unwrap();
    assert_eq!((fills[0].color, fills[0].area), (Color::Black, meter_area()));
    assert_eq!((fills[1].color, fills[1].area), (Color::Green, meter_bar(42)));
    c.touch(0);
    c.hear(&[]);
    assert!(c.show_level(42).is_none());
}

#[test]
fn only_the_lower_half_of_the_status_counts() {
    let mut c = Companion::new(vec![1]);
    assert_eq!(touch_with(&mut c, &[], 0xf0), TouchOutcome::Nothing);
    assert_eq!(touch_with(&mut c, &[], 0xf2), TouchOutcome::Started);
}

#[test]
fn beep_is_handed_over_in_order() {
    let mut c = Companion::new(vec![1, 2, 3, 4, 5]);
    assert!(c.pending().is_none());
    touch_with(&mut c, &[], 1);
    assert_eq!(c.pending(), Some(&[1u8, 2, 3, 4, 5][..]));
    c.played(SpeakerWrite::Accepted(2));
    touch_with(&mut c, &[], 1);
    assert_eq!(c.pending(), Some(&[3u8, 4, 5][..]));
    c.played(SpeakerWrite::TimedOut);
    touch_with(&mut c, &[], 1);
    assert_eq!(c.pending(), Some(&[3u8, 4, 5][..]));
    c.played(SpeakerWrite::Accepted(3));
    assert!(c.pending().is_none());
    assert_eq!(touch_with(&mut c, &[], 1), TouchOutcome::Nothing);
    assert_eq!(c.next(), Step::Read);
}

#[test]
fn taking_more_than_is_pending_ends_playback() {
    let mut c = Companion::new(vec![1, 2]);
    touch_with(&mut c, &[], 1);
    c.played(SpeakerWrite::Accepted(usize::MAX));
    assert!(c.pending().is_none());
}

#[test]
fn beep_is_not_recorded() {
    let mut c = Companion::new(vec![0; 8]);
    touch_with(&mut c, &block(), 1);
    c.played(SpeakerWrite::Accepted(4));
    // Still playing: this block is not recorded.
    touch_with(&mut c, &block(), 1);
    c.played(SpeakerWrite::Accepted(4));
    assert_eq!(touch_with(&mut c, &[], 0), TouchOutcome::Canceled(0));
}

#[test]
fn short_recording_is_dropped() {
    let mut c = recording();
    for _ in 0..14 {
        assert_eq!(touch_with(&mut c, &block(), 1), TouchOutcome::Nothing);
    }
    // 14 blocks of 1024 bytes and one more at release: 15360 < 16000.
    assert_eq!(touch_with(&mut c, &block(), 0), TouchOutcome::Canceled(15360));
    assert_eq!(c.next(), Step::Read);
    assert!(c.outgoing().is_none());
    // A new touch starts afresh.
    assert_eq!(touch_with(&mut c, &[], 1), TouchOutcome::Started);
}

#[test]
fn half_a_second_is_long_enough() {
    let mut c = recording();
    for _ in 0..15 {
        touch_with(&mut c, &block(), 1);
    }
    // 15360 bytes so far; 320 frames make 16000.
    assert_eq!(touch_with(&mut c, &block()[..1280], 0), TouchOutcome::Finished);
    assert_eq!(c.next(), Step::Send);
    assert_eq!(c.outgoing().map(|p| p.len()), Some(16000));
    let mut d = recording();
    for _ in 0..15 {
        touch_with(&mut d, &block(), 1);
    }
    assert_eq!(touch_with(&mut d, &block()[..1276], 0), TouchOutcome::Canceled(15998));
}

#[test]
fn recording_is_the_left_channel() {
    let mut c = recording();
    for _ in 0..20 {
        touch_with(&mut c, &block(), 1);
    }
    assert_eq!(touch_with(&mut c, &[], 0), TouchOutcome::Finished);
    let expected: Vec<u8> = (0..20).flat_map(|_| left()).collect();
    assert_eq!(c.outgoing(), Some(&expected[..]));
}

#[test]
fn limit_ends_a_recording_and_a_held_touch_starts_none() {
    let mut c = recording();
    // 468 blocks of 1024 bytes stay below 480000; the next one is cut off.
    for _ in 0..468 {
        assert_eq!(touch_with(&mut c, &block(), 1), TouchOutcome::Nothing);
    }
    assert_eq!(touch_with(&mut c, &block(), 1), TouchOutcome::Finished);
    assert_eq!(c.outgoing().map(|p| p.len()), Some(MAX_RECORD_BYTES));
    c.reply(TalkOutcome::Failed, 1);
    assert_eq!(touch_with(&mut c, &block(), 1), TouchOutcome::Nothing);
    assert_eq!(touch_with(&mut c, &block(), 0), TouchOutcome::Nothing);
    assert_eq!(touch_with(&mut c, &block(), 1), TouchOutcome::Started);
}

fn ready_to_send() -> Companion {
    let mut c = recording();
    for _ in 0..16 {
        touch_with(&mut c, &block(), 1);
    }
    assert_eq!(touch_with(&mut c, &[], 0), TouchOutcome::Finished);
    assert_eq!(c.next(), Step::Send);
    c
}

#[test]
fn spoken_reply_is_played_on_both_channels() {
    let mut c = ready_to_send();
    let status = c.reply(replied(200, &[1, 2, 3, 4, 5]), 6500);
    assert_eq!(status.text, "OK 6500ms (dev) / t");
    assert_eq!(status.background, Some(Color::Blue));
    assert!(c.outgoing().is_none());
    assert_eq!(c.pending(), Some(&[1u8, 2, 1, 2, 3, 4, 3, 4][..]));
    // A touch while the reply is played is ignored.
    assert_eq!(touch_with(&mut c, &block(), 1), TouchOutcome::Nothing);
    assert_eq!(c.next(), Step::Play);
    c.played(SpeakerWrite::Accepted(8));
    assert!(c.pending().is_none());
    assert_eq!(touch_with(&mut c, &block(), 1), TouchOutcome::Nothing);
}

#[test]
fn empty_reply_is_over_at_once() {
    let mut c = ready_to_send();
    c.reply(replied(200, &[]), 5);
    assert_eq!(c.pending(), Some(&[][..]));
    assert_eq!(touch_with(&mut c, &[], 1), TouchOutcome::Nothing);
    assert_eq!(c.next(), Step::Play);
    c.played(SpeakerWrite::TimedOut);
    assert!(c.pending().is_none());
}

#[test]
fn other_outcomes_leave_the_device_idle() {
    let mut c = ready_to_send();
    let status = c.reply(replied(500, &[1, 2, 3, 4]), 332);
    assert_eq!(status.text, "Relay error: 500 (332ms)");
    assert!(c.pending().is_none());
    assert_eq!(c.next(), Step::Read);
    let mut d = ready_to_send();
    assert_eq!(d.reply(TalkOutcome::Failed, 30000).text, "Send FAILED (30000ms)");
    assert!(d.pending().is_none());
    assert_eq!(touch_with(&mut d, &[], 1), TouchOutcome::Started);
}
