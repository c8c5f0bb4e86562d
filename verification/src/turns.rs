//! What holds of the push-to-talk loop as a whole, however the microphone, the touch panel, the
//! loudspeaker and the relay behave.

use crate::audio;
use crate::companion;
use crate::companion::{State, MAX_RECORD_BYTES, MIN_RECORD_BYTES};
use crate::relay::{TalkOutcome, STATUS_OK};
use vstd::prelude::*;

verus! {

/// What one turn of the loop takes in.
pub struct Turn {
    /// The block of stereo audio that was read.
    pub block: Seq<u8>,
    /// The meter width for that block.
    pub bar_width: u32,
    /// The touch status byte.
    pub status: u8,
    /// Number of bytes that the loudspeaker took, where something was being played.
    pub count: nat,
    /// The outcome of the exchange with the relay, where a recording was sent.
    pub outcome: TalkOutcome,
}

impl Turn {
    pub open spec fn touched(self) -> bool {
        companion::is_touch(self.status)
    }
}

/// The state once a turn has read the audio, drawn the meter, read the touch panel and, where
/// something is being played, offered audio to the loudspeaker.
pub open spec fn before_sending(s: State, t: Turn) -> State {
    let touched = s.hear(t.block).show_level(t.bar_width).touch(t.touched());
    if touched.step is Play {
        touched.play(t.count)
    } else {
        touched
    }
}

/// The recording that a turn sends, if any.
pub open spec fn sent(s: State, t: Turn) -> Option<Seq<u8>> {
    before_sending(s, t).outbox
}

/// The state after one turn of the loop: each step that the state machine names is performed,
/// until the next block of audio is to be read.
pub open spec fn turn(s: State, t: Turn) -> State {
    let played = before_sending(s, t);
    if played.step is Send {
        played.reply(t.outcome)
    } else {
        played
    }
}

/// The state after some turns of the loop.
pub open spec fn run(s: State, turns: Seq<Turn>) -> State
    decreases turns.len(),
{
    if turns.len() == 0 {
        s
    } else {
        turn(run(s, turns.drop_last()), turns.last())
    }
}

/// The state between two turns: well-formed, and about to read a block of audio.
pub open spec fn settled(s: State) -> bool {
    s.wf() && s.step is Read
}

/// The steps of a turn come in a fixed order, each keeps the state well-formed, and the turn ends
/// where the next one begins. If it sends a recording, that holds whole samples of at least 0.5 s
/// and at most 15 s, and nothing is being played at that moment, so the reply never cuts off
/// other audio.
pub proof fn turn_keeps_settled(s: State, t: Turn)
    requires
        settled(s),
    ensures
        ({
            let heard = s.hear(t.block);
            let metered = heard.show_level(t.bar_width);
            let touched = metered.touch(t.touched());
            &&& heard.wf() && heard.step is Meter
            &&& metered.wf() && metered.step is Touch
            &&& touched.wf() && (touched.step is Play || touched.step is Send
                || touched.step is Read)
            &&& before_sending(s, t).wf() && (before_sending(s, t).step is Send || before_sending(
                s,
                t,
            ).step is Read)
        }),
        settled(turn(s, t)),
        sent(s, t) matches Some(pcm) ==> {
            &&& MIN_RECORD_BYTES <= pcm.len() <= MAX_RECORD_BYTES
            &&& pcm.len() % 2 == 0
            &&& s.playback is None
            &&& turn(s, t).recording is None
        },
{
}

/// Any number of turns keeps a settled state settled.
pub proof fn run_keeps_settled(s: State, turns: Seq<Turn>)
    requires
        settled(s),
    ensures
        settled(run(s, turns)),
    decreases turns.len(),
{
    if turns.len() > 0 {
        run_keeps_settled(s, turns.drop_last());
        turn_keeps_settled(run(s, turns.drop_last()), turns.last());
    }
}

/// From power-on, any number of turns with any inputs leads to a well-formed state: a recording
/// is made only while the panel is touched, never exceeds 15 s, and holds nothing while something
/// is played.
pub proof fn always_settled(beep: Seq<u8>, turns: Seq<Turn>)
    ensures
        settled(run(State::initial(beep), turns)),
        run(State::initial(beep), turns).recording matches Some(pcm) ==> {
            &&& run(State::initial(beep), turns).was_touched
            &&& pcm.len() < MAX_RECORD_BYTES
            &&& run(State::initial(beep), turns).playback is Some ==> pcm.len() == 0
        },
{
    run_keeps_settled(State::initial(beep), turns);
}

/// A finger that comes down while nothing is recorded or played starts an empty recording and
/// the beep, in that same turn.
pub proof fn touch_when_idle_starts(s: State, t: Turn)
    requires
        settled(s),
        s.recording is None,
        s.playback is None,
        !s.was_touched,
        t.touched(),
    ensures
        turn(s, t).recording == Some(Seq::<u8>::empty()),
        turn(s, t).playback == (if t.count >= s.beep.len() {
            None
        } else {
            Some((s.beep, t.count))
        }),
        sent(s, t) is None,
{
}

/// While something is played, a turn starts no recording, adds nothing to one and sends none: the
/// beep is never recorded, and a touch during a reply is ignored.
pub proof fn nothing_is_recorded_while_playing(s: State, t: Turn)
    requires
        settled(s),
        s.playback is Some,
    ensures
        sent(s, t) is None,
        s.recording is None ==> turn(s, t).recording is None,
        turn(s, t).recording matches Some(pcm) ==> pcm == Seq::<u8>::empty(),
{
    if let Some(pcm) = turn(s, t).recording {
        assert(pcm =~= Seq::<u8>::empty());
    }
}

/// One touch makes at most one recording: after a recording was sent or dropped, or while a touch
/// was ignored, none starts until the finger has been lifted.
pub proof fn held_touch_starts_nothing(s: State, t: Turn)
    requires
        settled(s),
        s.recording is None,
        s.was_touched,
        t.touched(),
    ensures
        turn(s, t).recording is None,
        sent(s, t) is None,
{
}

/// A turn in which something is being recorded ends it if and only if the finger is gone or the
/// limit of 15 s is reached, and sends it if and only if, then, it holds at least 0.5 s.
pub proof fn recording_ends_on_release_or_limit(s: State, t: Turn)
    requires
        settled(s),
        s.recording is Some,
    ensures
        ({
            let heard = s.hear(t.block).recording->0;
            let ends = !t.touched() || heard.len() >= MAX_RECORD_BYTES;
            &&& turn(s, t).recording == (if ends {
                None
            } else {
                Some(heard)
            })
            &&& sent(s, t) == (if ends && heard.len() >= MIN_RECORD_BYTES {
                Some(heard)
            } else {
                None
            })
        }),
{
}

/// The left channels of the blocks that some turns took in, one after the other.
pub open spec fn heard(turns: Seq<Turn>) -> Seq<u8>
    decreases turns.len(),
{
    if turns.len() == 0 {
        Seq::empty()
    } else {
        heard(turns.drop_last()) + audio::left_channel(turns.last().block)
    }
}

/// While a recording goes on with nothing being played, it consists of what it held before and
/// then everything heard since on the left channel, without gaps.
pub proof fn recording_holds_what_was_heard(s: State, turns: Seq<Turn>)
    requires
        settled(s),
        s.recording is Some,
        s.playback is None,
        forall|k: int|
            0 <= k <= turns.len() ==> (#[trigger] run(s, turns.take(k))).recording is Some,
    ensures
        settled(run(s, turns)),
        run(s, turns).playback is None,
        run(s, turns).recording == Some(s.recording->0 + heard(turns)),
    decreases turns.len(),
{
    if turns.len() == 0 {
        assert(s.recording->0 + heard(turns) =~= s.recording->0);
    } else {
        let before = turns.drop_last();
        assert(turns.take(turns.len() as int) =~= turns);
        assert(turns.take(turns.len() - 1) =~= before);
        assert forall|k: int| 0 <= k <= before.len() implies (#[trigger] run(
            s,
            before.take(k),
        )).recording is Some by {
            assert(before.take(k) =~= turns.take(k));
        }
        recording_holds_what_was_heard(s, before);
        let m = run(s, before);
        turn_keeps_settled(m, turns.last());
        assert(run(s, turns) == turn(m, turns.last()));
        assert(run(s, turns).recording is Some);
        let all = s.recording->0 + heard(turns);
        let part = m.recording->0 + audio::left_channel(turns.last().block);
        assert(part =~= all);
        assert(run(s, turns).recording == Some(audio::capped(part, MAX_RECORD_BYTES as int)));
        assert(run(s, turns).recording->0.len() < MAX_RECORD_BYTES);
    }
}

/// A recording that is sent is what was heard on the left channel since the beep ended, up to the
/// limit of 15 s.
pub proof fn sent_recording_is_what_was_heard(s: State, turns: Seq<Turn>, t: Turn)
    requires
        settled(s),
        s.recording == Some(Seq::<u8>::empty()),
        s.playback is None,
        forall|k: int|
            0 <= k <= turns.len() ==> (#[trigger] run(s, turns.take(k))).recording is Some,
        sent(run(s, turns), t) is Some,
    ensures
        sent(run(s, turns), t) == Some(
            audio::capped(heard(turns.push(t)), MAX_RECORD_BYTES as int),
        ),
{
    recording_holds_what_was_heard(s, turns);
    assert(Seq::<u8>::empty() + heard(turns) =~= heard(turns));
    assert(turns.push(t).drop_last() =~= turns);
}

/// The whole course of a recording. A finger comes down on an idle device in turn `press`; the
/// beep is played during `beeping` and is over after it; the finger stays down during `talking`;
/// turn `last` sends the recording. Then what is sent is the left channel of what was read since
/// the beep ended, the last turn included, up to the limit of 15 s.
pub proof fn push_to_talk_sends_what_was_said(
    s: State,
    press: Turn,
    beeping: Seq<Turn>,
    talking: Seq<Turn>,
    last: Turn,
)
    requires
        settled(s),
        s.recording is None,
        s.playback is None,
        !s.was_touched,
        press.touched(),
        forall|k: int|
            0 <= k < beeping.len() ==> (#[trigger] run(
                turn(s, press),
                beeping.take(k),
            )).playback is Some,
        run(turn(s, press), beeping).playback is None,
        forall|k: int|
            0 <= k <= talking.len() ==> (#[trigger] run(
                run(turn(s, press), beeping),
                talking.take(k),
            )).recording is Some,
        sent(run(run(turn(s, press), beeping), talking), last) is Some,
    ensures
        sent(run(run(turn(s, press), beeping), talking), last) == Some(
            audio::capped(heard(talking.push(last)), MAX_RECORD_BYTES as int),
        ),
{
    let started = turn(s, press);
    let ready = run(started, beeping);
    turn_keeps_settled(s, press);
    touch_when_idle_starts(s, press);
    run_keeps_settled(started, beeping);
    assert(talking.take(0) =~= Seq::<Turn>::empty());
    assert(run(ready, talking.take(0)) == ready);
    if beeping.len() > 0 {
        let before = beeping.drop_last();
        assert(beeping.take(beeping.len() - 1) =~= before);
        run_keeps_settled(started, before);
        nothing_is_recorded_while_playing(run(started, before), beeping.last());
    }
    sent_recording_is_what_was_heard(ready, talking, last);
}

/// Number of bytes that the loudspeaker took over some turns.
pub open spec fn taken(turns: Seq<Turn>) -> nat
    decreases turns.len(),
{
    if turns.len() == 0 {
        0
    } else {
        taken(turns.drop_last()) + turns.last().count
    }
}

/// Audio that is being played is handed over in order and without loss, however little the
/// loudspeaker takes at a time: as long as it has not ended earlier, what is pending after some
/// turns is the audio without the bytes taken so far, and it ends when all of it has been taken.
pub proof fn playback_is_handed_over_in_order(s: State, turns: Seq<Turn>)
    requires
        settled(s),
        s.playback is Some,
        forall|k: int|
            0 <= k < turns.len() ==> (#[trigger] run(s, turns.take(k))).playback is Some,
    ensures
        settled(run(s, turns)),
        turns.len() > 0 ==> (run(s, turns).playback is None <==> taken(turns)
            >= s.pending()->0.len()),
        run(s, turns).playback is Some ==> run(s, turns).pending() == Some(
            s.pending()->0.skip(taken(turns) as int),
        ),
    decreases turns.len(),
{
    if turns.len() == 0 {
        assert(s.pending()->0.skip(0) =~= s.pending()->0);
    } else {
        let before = turns.drop_last();
        assert(turns.take(turns.len() - 1) =~= before);
        assert forall|k: int| 0 <= k < before.len() implies (#[trigger] run(
            s,
            before.take(k),
        )).playback is Some by {
            assert(before.take(k) =~= turns.take(k));
        }
        playback_is_handed_over_in_order(s, before);
        let m = run(s, before);
        turn_keeps_settled(m, turns.last());
        assert(run(s, turns) == turn(m, turns.last()));
        assert(m.playback is Some);
        let rest = s.pending()->0;
        let (d, p) = m.playback->0;
        let left = rest.skip(taken(before) as int);
        let n = turns.last().count as int;
        assert(taken(before) <= rest.len());
        assert(d.skip(p as int) == left);
        if run(s, turns).playback is Some {
            assert(d.skip(p + n) =~= left.skip(n));
            assert(left.skip(n) =~= rest.skip(taken(turns) as int));
        }
    }
}

/// A spoken reply to a recording is played from its first sample, with every sample on both
/// channels.
pub proof fn reply_is_played_in_full(s: State, t: Turn)
    requires
        settled(s),
        sent(s, t) is Some,
        t.outcome matches TalkOutcome::Replied(r) && r.status == STATUS_OK,
    ensures
        t.outcome matches TalkOutcome::Replied(r) && turn(s, t).pending() matches Some(out) && {
            &&& audio::left_channel(out) == r.body@.take(2 * (r.body@.len() as int / 2))
            &&& audio::right_channel(out) == r.body@.take(2 * (r.body@.len() as int / 2))
        },
{
    if let TalkOutcome::Replied(r) = t.outcome {
        let out = audio::stereo(r.body@);
        assert(out.skip(0) =~= out);
        audio::stereo_carries_mono_on_both_channels(r.body@);
    }
}

/// After an exchange without a spoken reply the device is idle again: nothing is recorded or
/// played.
pub proof fn failed_exchange_leaves_device_idle(s: State, t: Turn)
    requires
        settled(s),
        sent(s, t) is Some,
        !(t.outcome matches TalkOutcome::Replied(r) && r.status == STATUS_OK),
    ensures
        turn(s, t).recording is None,
        turn(s, t).playback is None,
{
}

/// After every turn the touch state that is remembered is that turn's reading, the meter shows
/// that turn's width, and the beep is still the one from before.
pub proof fn turn_remembers_its_reading(s: State, t: Turn)
    ensures
        turn(s, t).was_touched == (t.status % 16 != 0),
        turn(s, t).bar_width == t.bar_width,
        turn(s, t).beep == s.beep,
{
}

/// Whatever has happened since power-on, the beep is the one that was given then, and the touch
/// state and the meter are those of the last turn.
pub proof fn history_keeps_beep_and_last_reading(beep: Seq<u8>, turns: Seq<Turn>)
    ensures
        run(State::initial(beep), turns).beep == beep,
        turns.len() == 0 ==> !run(State::initial(beep), turns).was_touched,
        turns.len() > 0 ==> run(State::initial(beep), turns).was_touched == (turns.last().status % 16
            != 0),
        turns.len() > 0 ==> run(State::initial(beep), turns).bar_width == turns.last().bar_width,
    decreases turns.len(),
{
    if turns.len() > 0 {
        history_keeps_beep_and_last_reading(beep, turns.drop_last());
        turn_remembers_its_reading(
            run(State::initial(beep), turns.drop_last()),
            turns.last(),
        );
    }
}

/// Every new press works, at any time after power-on: where the finger was up in the last turn, or
/// there was none, and nothing is recorded or played, a turn with the finger down starts an empty
/// recording and plays the beep given at power-on from its first byte.
pub proof fn every_press_on_idle_device_starts(beep: Seq<u8>, turns: Seq<Turn>, t: Turn)
    requires
        turns.len() > 0 ==> turns.last().status % 16 == 0,
        run(State::initial(beep), turns).recording is None,
        run(State::initial(beep), turns).playback is None,
        t.status % 16 != 0,
    ensures
        ({
            let s = run(State::initial(beep), turns);
            let pressed = s.hear(t.block).show_level(t.bar_width).touch(t.touched());
            &&& pressed.pending() == Some(beep)
            &&& pressed.step is Play
            &&& turn(s, t).recording == Some(Seq::<u8>::empty())
            &&& t.count >= beep.len() ==> turn(s, t).pending() is None
            &&& t.count < beep.len() ==> turn(s, t).pending() == Some(beep.skip(t.count as int))
            &&& sent(s, t) is None
        }),
{
    history_keeps_beep_and_last_reading(beep, turns);
    always_settled(beep, turns);
    touch_when_idle_starts(run(State::initial(beep), turns), t);
    assert(beep.skip(0) =~= beep);
}

/// At any time after power-on, a turn with the finger up leaves nothing being recorded, and one
/// with the finger down starts nothing if it was down before or something is played.
pub proof fn nothing_starts_without_a_new_press(beep: Seq<u8>, turns: Seq<Turn>, t: Turn)
    ensures
        ({
            let s = run(State::initial(beep), turns);
            &&& t.status % 16 == 0 ==> turn(s, t).recording is None
            &&& s.recording is None && turns.len() > 0 && turns.last().status % 16 != 0 ==> turn(
                s,
                t,
            ).recording is None && sent(s, t) is None
            &&& s.recording is None && s.playback is Some ==> turn(s, t).recording is None && sent(
                s,
                t,
            ) is None
        }),
{
    history_keeps_beep_and_last_reading(beep, turns);
    always_settled(beep, turns);
    turn_keeps_settled(run(State::initial(beep), turns), t);
}

/// At any time after power-on, a device that plays nothing stays silent through a turn that
/// neither starts a recording nor sends one.
pub proof fn silence_stays(beep: Seq<u8>, turns: Seq<Turn>, t: Turn)
    requires
        run(State::initial(beep), turns).playback is None,
        sent(run(State::initial(beep), turns), t) is None,
        run(State::initial(beep), turns).recording is Some || turn(
            run(State::initial(beep), turns),
            t,
        ).recording is None,
    ensures
        turn(run(State::initial(beep), turns), t).playback is None,
{
    always_settled(beep, turns);
}

/// At any time after power-on, a turn that goes on recording with nothing being played adds the
/// first two bytes of every frame of its block, or ends the recording as its reading and the limit
/// demand: the finger is up, or 480000 bytes are reached. It is sent in that turn if it holds
/// 16000 bytes by then.
pub proof fn recording_turn_by_turn(beep: Seq<u8>, turns: Seq<Turn>, t: Turn, pcm: Seq<u8>)
    requires
        run(State::initial(beep), turns).recording == Some(pcm),
        run(State::initial(beep), turns).playback is None,
    ensures
        ({
            let s = run(State::initial(beep), turns);
            let total = pcm.len() + 2 * (t.block.len() as int / 4);
            let kept = if total <= 480000 {
                total
            } else {
                480000
            };
            let over = t.status % 16 == 0 || kept == 480000;
            &&& over <==> turn(s, t).recording is None
            &&& sent(s, t) is Some <==> over && kept >= 16000
            &&& !over || kept >= 16000 ==> {
                let out = if over {
                    sent(s, t)->0
                } else {
                    turn(s, t).recording->0
                };
                &&& out.len() == kept
                &&& forall|i: int| 0 <= i < pcm.len() ==> #[trigger] out[i] == pcm[i]
                &&& forall|i: int|
                    pcm.len() <= i < kept ==> #[trigger] out[i] == t.block[4 * ((i - pcm.len()) / 2)
                        + (i - pcm.len()) % 2]
            }
        }),
{
    always_settled(beep, turns);
    let s = run(State::initial(beep), turns);
    companion::hearing_adds_left_samples(s, t.block);
    recording_ends_on_release_or_limit(s, t);
}

/// At any time after power-on, the spoken reply to a recording is pending in full at the end of
/// its turn, each sample of the body on the left and then on the right; after any other outcome
/// nothing is played. Either way nothing is recorded any more.
pub proof fn reply_after_sending(beep: Seq<u8>, turns: Seq<Turn>, t: Turn)
    requires
        sent(run(State::initial(beep), turns), t) is Some,
    ensures
        ({
            let after = turn(run(State::initial(beep), turns), t);
            &&& after.recording is None
            &&& match t.outcome {
                TalkOutcome::Replied(r) if r.status == 200 => after.pending() matches Some(out) && {
                    &&& out.len() == 4 * (r.body@.len() as int / 2)
                    &&& forall|i: int|
                        0 <= i < out.len() ==> #[trigger] out[i] == r.body@[2 * (i / 4) + i % 2]
                },
                _ => after.pending() is None,
            }
        }),
{
    always_settled(beep, turns);
    let s = run(State::initial(beep), turns);
    turn_keeps_settled(s, t);
    let ready = before_sending(s, t);
    match t.outcome {
        TalkOutcome::Replied(r) if r.status == 200 => {
            companion::spoken_reply_is_pending_in_full(ready, t.outcome, r.body@);
        },
        _ => {
            companion::other_outcomes_change_nothing(ready, t.outcome);
        },
    }
}

/// At any time after power-on, a turn in which something is played hands over the first bytes of
/// what is pending, as many as the loudspeaker takes: these and what is pending afterwards make up
/// what was pending before.
pub proof fn playing_turn_by_turn(beep: Seq<u8>, turns: Seq<Turn>, t: Turn)
    requires
        run(State::initial(beep), turns).playback is Some,
    ensures
        ({
            let s = run(State::initial(beep), turns);
            let rest = s.pending()->0;
            let offered = s.hear(t.block).show_level(t.bar_width).touch(t.touched());
            &&& offered.step is Play
            &&& offered.pending() == Some(rest)
            &&& t.count >= rest.len() ==> turn(s, t).pending() is None
            &&& t.count < rest.len() ==> (turn(s, t).pending() matches Some(left)
                && rest.take(t.count as int) + left == rest)
        }),
{
    always_settled(beep, turns);
    let s = run(State::initial(beep), turns);
    turn_keeps_settled(s, t);
    let offered = s.hear(t.block).show_level(t.bar_width).touch(t.touched());
    companion::playing_removes_what_was_taken(offered, t.count);
}

} // verus!
