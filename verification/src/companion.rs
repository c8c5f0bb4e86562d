//! The push-to-talk loop: what is recorded, when a recording is sent or dropped, and what is
//! played.
//!
//! The state machine names the step that the loop has to perform next and takes in what came of
//! it. One turn of the loop reads a block of audio, draws the meter and reads the touch panel;
//! where something is being played it then offers audio to the loudspeaker, and where a recording
//! has been completed it sends that.

use crate::audio;
use crate::relay::{TalkOutcome, STATUS_OK};
use crate::screen;
use crate::screen::{Color, Fill, Status};
use vstd::prelude::*;

verus! {

/// The longest recording: 15 s of mono 16-bit PCM.
pub const MAX_RECORD_BYTES: usize = 480000;

/// The shortest recording that is sent: 0.5 s.
pub const MIN_RECORD_BYTES: usize = 16000;

/// What the loop has to do next.
#[derive(Clone, Copy, Debug, PartialEq, Eq, Structural)]
pub enum Step {
    /// Read a block of audio and report it with `hear`.
    Read,
    /// Work out the meter's width and report it with `show_level`.
    Meter,
    /// Read the touch panel and report its status with `touch`.
    Touch,
    /// Offer the audio of `pending` to the loudspeaker and report the outcome with `played`.
    Play,
    /// Send the recording of `outgoing` to the relay and report the outcome with `reply`.
    Send,
}

/// The outcome of one attempt to hand audio to the loudspeaker without waiting.
#[derive(Clone, Copy, Debug, PartialEq, Eq, Structural)]
pub enum SpeakerWrite {
    /// This many bytes were taken.
    Accepted(usize),
    /// There was no room at all. This is no error: the same bytes are offered again.
    TimedOut,
}

impl SpeakerWrite {
    /// Number of bytes that were taken.
    pub open spec fn count(self) -> nat {
        match self {
            SpeakerWrite::Accepted(n) => n as nat,
            SpeakerWrite::TimedOut => 0,
        }
    }
}

/// What a touch reading led to.
#[derive(Clone, Copy, Debug, PartialEq, Eq, Structural)]
pub enum TouchOutcome {
    /// Nothing.
    Nothing,
    /// A recording has started, with a beep before it.
    Started,
    /// A recording of this many bytes was too short and has been dropped.
    Canceled(usize),
    /// A recording is complete and is to be sent.
    Finished,
}

/// The state of the loop, in mathematical terms.
#[verifier::ext_equal]
pub struct State {
    /// What the loop has to do next.
    pub step: Step,
    /// The beep, as stereo PCM.
    pub beep: Seq<u8>,
    /// What is being played: the audio, and how much of it has been handed over.
    pub playback: Option<(Seq<u8>, nat)>,
    /// The mono PCM recorded so far, while a recording is being made.
    pub recording: Option<Seq<u8>>,
    /// A complete recording that is to be sent.
    pub outbox: Option<Seq<u8>>,
    /// The last touch reading.
    pub was_touched: bool,
    /// The width of the meter's bar on the display.
    pub bar_width: u32,
}

/// The finger count in the lower half of a touch status byte is not zero.
pub open spec fn is_touch(status: u8) -> bool {
    status % 16 != 0
}

impl State {
    /// The state at power-on.
    pub open spec fn initial(beep: Seq<u8>) -> State {
        State {
            step: Step::Read,
            beep,
            playback: None,
            recording: None,
            outbox: None,
            was_touched: false,
            bar_width: 0,
        }
    }

    /// What holds of every state.
    ///
    /// - Playback stays within its audio, and audio is offered only where there is any.
    /// - A recording is made only while the panel is touched. It consists of whole samples and
    ///   keeps the limit of 15 s; once the touch reading has been taken in it is below the limit.
    /// - While something is played, nothing has been recorded yet.
    /// - A recording is sent exactly where one is complete. It lasts at least 0.5 s and at most
    ///   15 s, no other is being made, and nothing is being played.
    pub open spec fn wf(self) -> bool {
        &&& self.playback matches Some((data, pos)) ==> pos <= data.len()
        &&& self.step is Play ==> self.playback is Some
        &&& self.recording matches Some(pcm) ==> {
            &&& self.was_touched
            &&& pcm.len() % 2 == 0
            &&& pcm.len() <= MAX_RECORD_BYTES
            &&& self.step is Read || self.step is Play ==> pcm.len() < MAX_RECORD_BYTES
            &&& self.playback is Some ==> pcm.len() == 0
        }
        &&& self.step is Send <==> self.outbox is Some
        &&& self.outbox matches Some(pcm) ==> {
            &&& MIN_RECORD_BYTES <= pcm.len() <= MAX_RECORD_BYTES
            &&& pcm.len() % 2 == 0
            &&& self.recording is None
            &&& self.playback is None
        }
    }

    /// A block of audio came in. While a recording is being made and nothing is played, its left
    /// channel is added to the recording, up to the limit.
    pub open spec fn hear(self, block: Seq<u8>) -> State {
        State {
            step: Step::Meter,
            recording: match self.recording {
                Some(pcm) if self.playback is None => Some(
                    audio::capped(pcm + audio::left_channel(block), MAX_RECORD_BYTES as int),
                ),
                other => other,
            },
            ..self
        }
    }

    /// The meter shows a new width.
    pub open spec fn show_level(self, bar_width: u32) -> State {
        State { step: Step::Touch, bar_width, ..self }
    }

    /// A touch reading starts a recording: the finger has just come down, and nothing is being
    /// recorded or played.
    pub open spec fn starts(self, touched: bool) -> bool {
        touched && !self.was_touched && self.recording is None && self.playback is None
    }

    /// A touch reading completes the recording: the limit is reached, or the finger has just
    /// gone and the recording is long enough.
    pub open spec fn finishes(self, touched: bool) -> bool {
        self.recording matches Some(pcm) && (pcm.len() >= MAX_RECORD_BYTES || (self.was_touched
            && !touched && pcm.len() >= MIN_RECORD_BYTES))
    }

    /// A touch reading drops the recording: the finger has just gone, too early.
    pub open spec fn cancels(self, touched: bool) -> bool {
        self.recording matches Some(pcm) && pcm.len() < MIN_RECORD_BYTES && self.was_touched
            && !touched
    }

    /// A touch reading came in.
    pub open spec fn touch(self, touched: bool) -> State {
        let playback = if self.starts(touched) {
            Some((self.beep, 0))
        } else {
            self.playback
        };
        let recording = if self.starts(touched) {
            Some(Seq::empty())
        } else if self.finishes(touched) || self.cancels(touched) {
            None
        } else {
            self.recording
        };
        let outbox = if self.finishes(touched) {
            self.recording
        } else {
            None
        };
        let step = if playback is Some {
            Step::Play
        } else if outbox is Some {
            Step::Send
        } else {
            Step::Read
        };
        State { step, playback, recording, outbox, was_touched: touched, ..self }
    }

    /// The audio that is still to be played.
    pub open spec fn pending(self) -> Option<Seq<u8>> {
        match self.playback {
            Some((data, pos)) => Some(data.skip(pos as int)),
            None => None,
        }
    }

    /// The loudspeaker took `count` bytes. Playback ends when nothing is left.
    pub open spec fn play(self, count: nat) -> State {
        State {
            step: if self.outbox is Some {
                Step::Send
            } else {
                Step::Read
            },
            playback: match self.playback {
                Some((data, pos)) if pos + count < data.len() => Some((data, pos + count)),
                _ => None,
            },
            ..self
        }
    }

    /// An exchange with the relay ended. A spoken reply is played from its start, on both
    /// channels; any other outcome leaves playback as it is.
    pub open spec fn reply(self, outcome: TalkOutcome) -> State {
        State {
            step: Step::Read,
            playback: match outcome {
                TalkOutcome::Replied(r) if r.status == STATUS_OK => Some(
                    (audio::stereo(r.body@), 0),
                ),
                _ => self.playback,
            },
            outbox: None,
            ..self
        }
    }
}

/// Audio on its way to the loudspeaker.
struct Playback {
    data: Vec<u8>,
    pos: usize,
}

/// The push-to-talk state machine.
pub struct Companion {
    step: Step,
    beep: Vec<u8>,
    playback: Option<Playback>,
    recording: Option<Vec<u8>>,
    outbox: Option<Vec<u8>>,
    was_touched: bool,
    bar_width: u32,
}

impl View for Companion {
    type V = State;

    closed spec fn view(&self) -> State {
        State {
            step: self.step,
            beep: self.beep@,
            playback: match self.playback {
                Some(p) => Some((p.data@, p.pos as nat)),
                None => None,
            },
            recording: match self.recording {
                Some(pcm) => Some(pcm@),
                None => None,
            },
            outbox: match self.outbox {
                Some(pcm) => Some(pcm@),
                None => None,
            },
            was_touched: self.was_touched,
            bar_width: self.bar_width,
        }
    }
}

impl Companion {
    #[verifier::type_invariant]
    spec fn inv(self) -> bool {
        self@.wf()
    }

    /// The state machine at power-on, with the beep to play before a recording.
    pub fn new(beep: Vec<u8>) -> (c: Companion)
        ensures
            c@ == State::initial(beep@),
            c@.wf(),
    {
        Companion {
            step: Step::Read,
            beep,
            playback: None,
            recording: None,
            outbox: None,
            was_touched: false,
            bar_width: 0,
        }
    }

    /// What the loop has to do next.
    pub fn next(&self) -> (step: Step)
        ensures
            step == self@.step,
    {
        self.step
    }

    /// Takes in a block of stereo audio. Returns the mean square of its left channel.
    pub fn hear(&mut self, block: &[u8]) -> (level: i64)
        requires
            old(self)@.step is Read,
            audio::frames(block@) * 0x4000_0000 <= i64::MAX,
        ensures
            final(self)@ == old(self)@.hear(block@),
            final(self)@.wf(),
            level == audio::mean_of_squares(block@),
    {
        proof {
            use_type_invariant(&*self);
        }
        self.step = Step::Meter;
        if self.playback.is_none() {
            let mut recording: Option<Vec<u8>> = None;
            std::mem::swap(&mut self.recording, &mut recording);
            if let Some(mut pcm) = recording {
                audio::append_left(&mut pcm, block, MAX_RECORD_BYTES);
                self.recording = Some(pcm);
            }
        }
        audio::mean_square(block)
    }

    /// Takes in the width of the meter's bar for the last block of audio. Returns what is to be
    /// drawn: nothing where the width has not changed, else the empty meter and the new bar.
    pub fn show_level(&mut self, bar_width: u32) -> (drawn: Option<[Fill; 2]>)
        requires
            old(self)@.step is Meter,
        ensures
            final(self)@ == old(self)@.show_level(bar_width),
            final(self)@.wf(),
            drawn is None <==> bar_width == old(self)@.bar_width,
            drawn matches Some(fills) ==> {
                &&& fills@[0] == (Fill { color: Color::Black, area: screen::meter_area() })
                &&& fills@[1] == (Fill { color: Color::Green, area: screen::meter_bar(bar_width) })
            },
    {
        proof {
            use_type_invariant(&*self);
        }
        self.step = Step::Touch;
        if bar_width == self.bar_width {
            return None;
        }
        self.bar_width = bar_width;
        Some(
            [
                Fill { color: Color::Black, area: screen::meter_area() },
                Fill { color: Color::Green, area: screen::meter_bar(bar_width) },
            ],
        )
    }

    /// Takes in the touch controller's status byte.
    pub fn touch(&mut self, status: u8) -> (outcome: TouchOutcome)
        requires
            old(self)@.step is Touch,
        ensures
            final(self)@ == old(self)@.touch(is_touch(status)),
            final(self)@.wf(),
            outcome is Started <==> old(self)@.starts(is_touch(status)),
            outcome is Finished <==> old(self)@.finishes(is_touch(status)),
            outcome is Canceled <==> old(self)@.cancels(is_touch(status)),
            outcome matches TouchOutcome::Canceled(n) ==> old(self)@.recording matches Some(pcm)
                && n == pcm.len(),
    {
        proof {
            use_type_invariant(&*self);
            assert((status & 0x0f) == status % 16) by (bit_vector);
        }
        let touched = (status & 0x0f) > 0;
        let released = self.was_touched && !touched;
        let mut outcome = TouchOutcome::Nothing;
        let mut playback: Option<Playback> = None;
        let mut recording: Option<Vec<u8>> = None;
        let mut outbox: Option<Vec<u8>> = None;
        std::mem::swap(&mut self.playback, &mut playback);
        std::mem::swap(&mut self.recording, &mut recording);
        if touched && !self.was_touched && recording.is_none() && playback.is_none() {
            playback = Some(Playback { data: self.beep.clone(), pos: 0 });
            recording = Some(Vec::with_capacity(MAX_RECORD_BYTES));
            outcome = TouchOutcome::Started;
        }
        if let Some(pcm) = recording {
            let n: usize = pcm.len();
            if n >= MAX_RECORD_BYTES || (released && n >= MIN_RECORD_BYTES) {
                recording = None;
                outbox = Some(pcm);
                outcome = TouchOutcome::Finished;
            } else if released {
                recording = None;
                outcome = TouchOutcome::Canceled(n);
            } else {
                recording = Some(pcm);
            }
        }
        let step = if playback.is_some() {
            Step::Play
        } else if outbox.is_some() {
            Step::Send
        } else {
            Step::Read
        };
        let mut beep: Vec<u8> = Vec::new();
        std::mem::swap(&mut self.beep, &mut beep);
        let bar_width: u32 = self.bar_width;
        *self = Companion {
            step,
            beep,
            playback,
            recording,
            outbox,
            was_touched: touched,
            bar_width,
        };
        outcome
    }

    /// The audio that is to be offered to the loudspeaker, while something is being played.
    pub fn pending(&self) -> (rest: Option<&[u8]>)
        ensures
            rest is Some <==> self@.playback is Some,
            rest matches Some(bytes) ==> self@.pending() == Some(bytes@),
    {
        proof {
            use_type_invariant(self);
        }
        match &self.playback {
            Some(p) => {
                let rest = &p.data.as_slice()[p.pos..p.data.len()];
                assert(rest@ =~= p.data@.skip(p.pos as int));
                Some(rest)
            },
            None => None,
        }
    }

    /// Takes in the outcome of offering the pending audio to the loudspeaker.
    pub fn played(&mut self, write: SpeakerWrite)
        requires
            old(self)@.step is Play,
        ensures
            final(self)@ == old(self)@.play(write.count()),
            final(self)@.wf(),
    {
        proof {
            use_type_invariant(&*self);
        }
        let count: usize = match write {
            SpeakerWrite::Accepted(n) => n,
            SpeakerWrite::TimedOut => 0,
        };
        self.step = if self.outbox.is_some() {
            Step::Send
        } else {
            Step::Read
        };
        let mut playback: Option<Playback> = None;
        std::mem::swap(&mut self.playback, &mut playback);
        if let Some(mut p) = playback {
            if count < p.data.len() - p.pos {
                p.pos = p.pos + count;
                self.playback = Some(p);
            }
        }
    }

    /// The recording that is to be sent, where one is complete.
    pub fn outgoing(&self) -> (pcm: Option<&[u8]>)
        ensures
            pcm is Some <==> self@.outbox is Some,
            pcm matches Some(bytes) ==> self@.outbox == Some(bytes@) && MIN_RECORD_BYTES
                <= bytes@.len() <= MAX_RECORD_BYTES,
    {
        proof {
            use_type_invariant(self);
        }
        match &self.outbox {
            Some(pcm) => Some(pcm.as_slice()),
            None => None,
        }
    }

    /// Takes in how the exchange with the relay ended and how long it took. Returns the status
    /// that reports it.
    pub fn reply(&mut self, outcome: TalkOutcome, elapsed_ms: u128) -> (status: Status)
        requires
            old(self)@.step is Send,
            outcome matches TalkOutcome::Replied(r) ==> r.status == STATUS_OK ==> 2 * r.body@.len()
                <= isize::MAX,
        ensures
            final(self)@ == old(self)@.reply(outcome),
            final(self)@.wf(),
            status.background == Some(Color::Blue),
            status.text@ == outcome.report(elapsed_ms as nat),
    {
        proof {
            use_type_invariant(&*self);
        }
        let text = outcome.report_text(elapsed_ms);
        let mut beep: Vec<u8> = Vec::new();
        std::mem::swap(&mut self.beep, &mut beep);
        let playback = match outcome {
            TalkOutcome::Replied(r) => {
                if r.status == STATUS_OK {
                    Some(Playback { data: audio::to_stereo(r.body.as_slice()), pos: 0 })
                } else {
                    None
                }
            },
            TalkOutcome::Failed => None,
        };
        *self = Companion {
            step: Step::Read,
            beep,
            playback,
            recording: None,
            outbox: None,
            was_touched: self.was_touched,
            bar_width: self.bar_width,
        };
        Status { background: Some(Color::Blue), text }
    }
}

/// The panel is touched if and only if one of the lower four bits of the status is set, whatever
/// the upper four hold.
pub proof fn touch_is_in_the_lower_bits(upper: u8, fingers: u8)
    requires
        upper < 16,
        fingers < 16,
    ensures
        is_touch((16 * upper + fingers) as u8) <==> fingers > 0,
        is_touch(upper) <==> upper & 1 != 0 || upper & 2 != 0 || upper & 4 != 0 || upper & 8 != 0,
{
    assert(upper < 16 ==> (upper != 0 <==> upper & 1 != 0 || upper & 2 != 0 || upper & 4 != 0
        || upper & 8 != 0)) by (bit_vector);
}

/// A write counts the bytes that were accepted; one that timed out counts none.
pub proof fn only_accepted_bytes_count(n: usize)
    ensures
        SpeakerWrite::Accepted(n).count() == n,
        SpeakerWrite::TimedOut.count() == 0,
{
}

/// At power-on the device is idle and untouched, its meter is empty, it holds the beep that it was
/// given, and it begins by reading audio.
pub proof fn power_on_is_idle(beep: Seq<u8>)
    ensures
        State::initial(beep).beep == beep,
        State::initial(beep).playback is None,
        State::initial(beep).pending() is None,
        State::initial(beep).recording is None,
        State::initial(beep).outbox is None,
        !State::initial(beep).was_touched,
        State::initial(beep).bar_width == 0,
        State::initial(beep).step is Read,
{
}

/// Hearing a block changes nothing but the recording, and that only while one is being made and
/// nothing is played. Then what it held stays, and behind it come the first two bytes of each of
/// the block's frames, until it holds 480000 bytes.
pub proof fn hearing_adds_left_samples(s: State, block: Seq<u8>)
    ensures
        s.hear(block).beep == s.beep,
        s.hear(block).playback == s.playback,
        s.hear(block).outbox == s.outbox,
        s.hear(block).was_touched == s.was_touched,
        s.hear(block).bar_width == s.bar_width,
        s.hear(block).step is Meter,
        s.recording is None || s.playback is Some ==> s.hear(block).recording == s.recording,
        s.recording matches Some(pcm) ==> s.playback is None && pcm.len() <= 480000 ==> {
            &&& s.hear(block).recording matches Some(out)
            &&& out.len() == (if pcm.len() + 2 * (block.len() as int / 4) <= 480000 {
                pcm.len() + 2 * (block.len() as int / 4)
            } else {
                480000
            })
            &&& forall|i: int| 0 <= i < pcm.len() ==> #[trigger] out[i] == pcm[i]
            &&& forall|i: int|
                pcm.len() <= i < out.len() ==> #[trigger] out[i] == block[4 * ((i - pcm.len()) / 2)
                    + (i - pcm.len()) % 2]
        },
{
}

/// Showing a level changes nothing but the width that the meter remembers.
pub proof fn showing_level_only_sets_width(s: State, bar_width: u32)
    ensures
        s.show_level(bar_width).bar_width == bar_width,
        s.show_level(bar_width).step is Touch,
        s.show_level(bar_width).beep == s.beep,
        s.show_level(bar_width).playback == s.playback,
        s.show_level(bar_width).recording == s.recording,
        s.show_level(bar_width).outbox == s.outbox,
        s.show_level(bar_width).was_touched == s.was_touched,
{
}

/// A touch reading is remembered as it was read, whatever else is going on, and leaves the beep
/// and the meter alone.
pub proof fn touch_reading_is_remembered(s: State, touched: bool)
    ensures
        s.touch(touched).was_touched == touched,
        s.touch(touched).beep == s.beep,
        s.touch(touched).bar_width == s.bar_width,
{
}

/// With nothing being recorded, a touch reading starts a recording if and only if the panel is
/// touched, was not touched before, and nothing is played. It is empty then, and the whole beep is
/// pending. Otherwise nothing is recorded and playback is left alone.
pub proof fn press_on_idle_device_starts(s: State, touched: bool)
    requires
        s.recording is None,
    ensures
        touched && !s.was_touched && s.playback is None ==> {
            &&& s.touch(touched).recording matches Some(pcm) && pcm.len() == 0
            &&& s.touch(touched).pending() == Some(s.beep)
        },
        !touched || s.was_touched || s.playback is Some ==> {
            &&& s.touch(touched).recording is None
            &&& s.touch(touched).playback == s.playback
        },
        s.touch(touched).outbox is None,
{
    assert(s.beep.skip(0) =~= s.beep);
}

/// With something being recorded, a touch reading ends that if and only if the finger has just
/// gone or 480000 bytes are reached. The recording is then handed on unchanged if it holds at
/// least 16000 bytes, and dropped otherwise. Playback is left alone.
pub proof fn release_or_limit_ends_recording(s: State, touched: bool, pcm: Seq<u8>)
    requires
        s.recording == Some(pcm),
    ensures
        s.touch(touched).playback == s.playback,
        (s.was_touched && !touched) || pcm.len() >= 480000 ==> {
            &&& s.touch(touched).recording is None
            &&& pcm.len() >= 16000 ==> s.touch(touched).outbox == Some(pcm)
            &&& pcm.len() < 16000 ==> s.touch(touched).outbox is None
        },
        !(s.was_touched && !touched) && pcm.len() < 480000 ==> {
            &&& s.touch(touched).recording == Some(pcm)
            &&& s.touch(touched).outbox is None
        },
{
}

/// The outcome of a touch reading says what happened: a start where a recording has come to be, a
/// finish where one has been handed on, a cancellation where one has gone without that. No two of
/// them come together.
pub proof fn touch_outcome_says_what_happened(s: State, touched: bool)
    ensures
        s.starts(touched) <==> s.recording is None && s.touch(touched).recording is Some,
        s.finishes(touched) <==> s.touch(touched).outbox is Some,
        s.cancels(touched) <==> s.recording is Some && s.touch(touched).recording is None
            && s.touch(touched).outbox is None,
        s.starts(touched) ==> !s.finishes(touched) && !s.cancels(touched),
        s.finishes(touched) ==> !s.cancels(touched),
{
}

/// After a touch reading, audio is offered where there is any; else a complete recording is sent
/// where there is one; else the next block is read.
pub proof fn step_after_touch(s: State, touched: bool)
    ensures
        s.touch(touched).step is Play <==> s.touch(touched).playback is Some,
        s.touch(touched).step is Send <==> s.touch(touched).playback is None && s.touch(
            touched,
        ).outbox is Some,
        s.touch(touched).step is Read <==> s.touch(touched).playback is None && s.touch(
            touched,
        ).outbox is None,
{
}

/// What is pending is what has not been handed over yet, from the next byte to the end.
pub proof fn pending_is_the_unplayed_rest(s: State, data: Seq<u8>, pos: nat)
    requires
        s.playback == Some((data, pos)),
        pos <= data.len(),
    ensures
        s.pending() matches Some(rest) && data.take(pos as int) + rest == data,
{
    assert(data.take(pos as int) + data.skip(pos as int) =~= data);
}

/// When the loudspeaker takes some bytes of what is pending, these and what is pending afterwards
/// make up what was pending before; when it takes all, nothing is played any more. Nothing else
/// changes.
pub proof fn playing_removes_what_was_taken(s: State, count: nat)
    requires
        s.wf(),
        s.playback is Some,
    ensures
        ({
            let rest = s.pending()->0;
            &&& count >= rest.len() ==> s.play(count).playback is None && s.play(
                count,
            ).pending() is None
            &&& count < rest.len() ==> (s.play(count).pending() matches Some(left)
                && rest.take(count as int) + left == rest)
        }),
        s.play(count).beep == s.beep,
        s.play(count).recording == s.recording,
        s.play(count).outbox == s.outbox,
        s.play(count).was_touched == s.was_touched,
        s.play(count).bar_width == s.bar_width,
        s.play(count).step is Send <==> s.outbox is Some,
        s.play(count).step is Read <==> s.outbox is None,
{
    let rest = s.pending()->0;
    if count < rest.len() {
        assert(rest.take(count as int) + s.play(count).pending()->0 =~= rest);
    }
}

/// A spoken reply is pending in full: each sample of its body four bytes long, on the left and
/// then the same on the right. Nothing else changes but that the recording has been dealt with.
pub proof fn spoken_reply_is_pending_in_full(s: State, outcome: TalkOutcome, body: Seq<u8>)
    requires
        outcome matches TalkOutcome::Replied(r) && r.status == 200 && r.body@ == body,
    ensures
        s.reply(outcome).pending() matches Some(out) && {
            &&& out.len() == 4 * (body.len() as int / 2)
            &&& forall|i: int|
                0 <= i < out.len() ==> #[trigger] out[i] == body[2 * (i / 4) + i % 2]
        },
        s.reply(outcome).beep == s.beep,
        s.reply(outcome).recording == s.recording,
        s.reply(outcome).outbox is None,
        s.reply(outcome).was_touched == s.was_touched,
        s.reply(outcome).bar_width == s.bar_width,
        s.reply(outcome).step is Read,
{
    assert(audio::stereo(body).skip(0) =~= audio::stereo(body));
    assert forall|i: int| 0 <= i < audio::stereo(body).len() implies #[trigger] audio::stereo(
        body,
    )[i] == body[2 * (i / 4) + i % 2] by {
        audio::stereo_repeats_each_sample(body, i / 4);
    }
}

/// Any other outcome changes nothing but that the recording has been dealt with.
pub proof fn other_outcomes_change_nothing(s: State, outcome: TalkOutcome)
    requires
        outcome is Failed || (outcome matches TalkOutcome::Replied(r) && r.status != 200),
    ensures
        s.reply(outcome).playback == s.playback,
        s.reply(outcome).beep == s.beep,
        s.reply(outcome).recording == s.recording,
        s.reply(outcome).outbox is None,
        s.reply(outcome).was_touched == s.was_touched,
        s.reply(outcome).bar_width == s.bar_width,
        s.reply(outcome).step is Read,
{
}

} // verus!
