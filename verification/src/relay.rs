//! The exchange with the relay server: a recording goes out as a WAV file in an HTTP POST, the
//! spoken reply comes back as mono PCM.

use crate::text;
use crate::wav;
use vstd::prelude::*;
use vstd::string::*;

verus! {

/// HTTP status of a reply that carries audio.
pub const STATUS_OK: u16 = 200;

/// Seconds to wait for the relay, which takes over six to recognise, answer and speak.
pub const TIMEOUT_SECS: u64 = 30;

/// The header of a reply in which the relay accounts for the time it took.
pub const TIMING_HEADER: &'static str = "X-Timing";

/// Size of the buffer into which the reply is read piece by piece.
pub const CHUNK_BYTES: usize = 4096;

/// A POST request to the relay. Its body is the WAV header followed by the recording: the two
/// are sent one after the other and never joined in memory.
pub struct TalkRequest<'a> {
    pub url: &'a str,
    pub content_type: &'static str,
    pub content_length: String,
    pub header: [u8; 44],
    pub pcm: &'a [u8],
}

impl<'a> TalkRequest<'a> {
    /// The bytes of the request's body, in the order in which they are sent.
    pub open spec fn body(self) -> Seq<u8> {
        self.header@ + self.pcm@
    }

    /// The HTTP headers of the request, as names and values.
    pub fn headers(&self) -> (h: [(&str, &str); 2])
        ensures
            h@[0].0@ == "Content-Type"@,
            h@[0].1@ == self.content_type@,
            h@[1].0@ == "Content-Length"@,
            h@[1].1@ == self.content_length@,
    {
        [("Content-Type", self.content_type), ("Content-Length", self.content_length.as_str())]
    }
}

/// Builds the request that sends a recording at the given sample rate.
pub fn talk_request<'a>(url: &'a str, pcm: &'a [u8], sample_rate: u32) -> (r: TalkRequest<'a>)
    requires
        36 + pcm@.len() <= u32::MAX,
        sample_rate * 2 <= u32::MAX,
    ensures
        r.url@ == url@,
        r.content_type@ == "audio/wav"@,
        r.content_length@ == text::decimal(wav::WAV_HEADER_BYTES as nat + pcm@.len()),
        r.header@ == wav::wav_header_bytes(pcm@.len() as int, sample_rate as int),
        r.pcm@ == pcm@,
{
    let header = wav::wav_header(pcm.len() as u32, sample_rate);
    let content_length = text::decimal_text(header.len() as u128 + pcm.len() as u128);
    TalkRequest { url, content_type: "audio/wav", content_length, header, pcm }
}

/// The announced content length is the number of bytes that the request's body holds.
pub proof fn content_length_counts_body(r: TalkRequest, sample_rate: u32)
    requires
        r.content_length@ == text::decimal(wav::WAV_HEADER_BYTES as nat + r.pcm@.len()),
        r.header@ == wav::wav_header_bytes(r.pcm@.len() as int, sample_rate as int),
    ensures
        text::decimal_value(r.content_length@) == r.body().len(),
{
    text::decimal_denotes(wav::WAV_HEADER_BYTES as nat + r.pcm@.len());
}

/// The relay's reply: the HTTP status, the relay's own account of the time it took, and the
/// spoken answer as mono PCM.
pub struct TalkResponse {
    pub status: u16,
    pub timing: String,
    pub body: Vec<u8>,
}

impl TalkResponse {
    /// A reply whose body has not been read yet. Without a timing header the timing is empty.
    pub fn new(status: u16, timing: Option<&str>) -> (r: TalkResponse)
        ensures
            r.status == status,
            r.timing@ == (match timing {
                Some(t) => t@,
                None => Seq::<char>::empty(),
            }),
            r.body@ == Seq::<u8>::empty(),
    {
        let timing = match timing {
            Some(t) => String::from_str(t),
            None => String::new(),
        };
        TalkResponse { status, timing, body: Vec::with_capacity(256 * 1024) }
    }

    /// Takes in the outcome of one read, which put `n` bytes at the start of `chunk`. Tells
    /// whether there may be more to read: a read of no bytes ends the body.
    pub fn absorb(&mut self, chunk: &[u8], n: usize) -> (more: bool)
        requires
            n <= chunk@.len(),
        ensures
            more == (n != 0),
            final(self).body@ == old(self).body@ + chunk@.take(n as int),
            final(self).status == old(self).status,
            final(self).timing == old(self).timing,
    {
        if n == 0 {
            assert(self.body@ =~= old(self).body@ + chunk@.take(n as int));
            return false;
        }
        self.body.extend_from_slice(&chunk[0..n]);
        assert(self.body@ =~= old(self).body@ + chunk@.take(n as int));
        true
    }
}

/// The bytes of a reply that is read in the given pieces: all that comes before the first empty
/// piece.
pub open spec fn read_up_to_end(reads: Seq<Seq<u8>>) -> Seq<u8>
    decreases reads.len(),
{
    if reads.len() == 0 || reads[0].len() == 0 {
        Seq::empty()
    } else {
        reads[0] + read_up_to_end(reads.skip(1))
    }
}

/// What the loop over `absorb` leaves in a body that held `body`: each piece is appended, and
/// the first empty one stops the loop.
pub open spec fn absorb_all(body: Seq<u8>, reads: Seq<Seq<u8>>) -> Seq<u8>
    decreases reads.len(),
{
    if reads.len() == 0 {
        body
    } else if reads[0].len() == 0 {
        body + reads[0]
    } else {
        absorb_all(body + reads[0], reads.skip(1))
    }
}

/// Reading until nothing comes any more gathers the whole reply: every byte that came before the
/// end, once, in order.
pub proof fn whole_reply_is_gathered(body: Seq<u8>, reads: Seq<Seq<u8>>)
    ensures
        absorb_all(body, reads) == body + read_up_to_end(reads),
    decreases reads.len(),
{
    if reads.len() == 0 || reads[0].len() == 0 {
        assert(absorb_all(body, reads) =~= body + read_up_to_end(reads));
    } else {
        whole_reply_is_gathered(body + reads[0], reads.skip(1));
        assert(absorb_all(body, reads) =~= body + read_up_to_end(reads));
    }
}

/// How an exchange ended.
pub enum TalkOutcome {
    /// The relay replied.
    Replied(TalkResponse),
    /// The exchange broke down.
    Failed,
}

impl TalkOutcome {
    /// The text that reports the exchange and how long it took.
    pub open spec fn report(self, elapsed_ms: nat) -> Seq<char> {
        match self {
            TalkOutcome::Replied(r) => if r.status == STATUS_OK {
                "OK "@ + text::decimal(elapsed_ms) + "ms (dev) / "@ + r.timing@
            } else {
                "Relay error: "@ + text::decimal(r.status as nat) + " ("@ + text::decimal(
                    elapsed_ms,
                ) + "ms)"@
            },
            TalkOutcome::Failed => "Send FAILED ("@ + text::decimal(elapsed_ms) + "ms)"@,
        }
    }

    /// The text that reports the exchange and how long it took.
    pub fn report_text(&self, elapsed_ms: u128) -> (t: String)
        ensures
            t@ == self.report(elapsed_ms as nat),
    {
        match self {
            TalkOutcome::Replied(r) => {
                if r.status == STATUS_OK {
                    let mut t = String::from_str("OK ");
                    text::push_decimal(&mut t, elapsed_ms);
                    t.append("ms (dev) / ");
                    t.append(r.timing.as_str());
                    t
                } else {
                    let mut t = String::from_str("Relay error: ");
                    text::push_decimal(&mut t, r.status as u128);
                    t.append(" (");
                    text::push_decimal(&mut t, elapsed_ms);
                    t.append("ms)");
                    t
                }
            },
            TalkOutcome::Failed => {
                let mut t = String::from_str("Send FAILED (");
                text::push_decimal(&mut t, elapsed_ms);
                t.append("ms)");
                t
            },
        }
    }
}

/// However the reply arrives, what is kept is the pieces before the first empty one, joined: here
/// that empty piece is number `end`, or there is none.
pub proof fn reply_is_pieces_before_end(body: Seq<u8>, reads: Seq<Seq<u8>>, end: int)
    requires
        0 <= end <= reads.len(),
        forall|i: int| 0 <= i < end ==> (#[trigger] reads[i]).len() > 0,
        end < reads.len() ==> reads[end].len() == 0,
    ensures
        absorb_all(body, reads) == body + reads.take(end).flatten(),
        read_up_to_end(reads) == reads.take(end).flatten(),
    decreases reads.len(),
{
    if end == 0 {
        assert(reads.take(0).flatten() =~= Seq::<u8>::empty());
        assert(absorb_all(body, reads) =~= body + reads.take(end).flatten());
    } else {
        let rest = reads.skip(1);
        assert forall|i: int| 0 <= i < end - 1 implies (#[trigger] rest[i]).len() > 0 by {
            assert(rest[i] == reads[i + 1]);
        }
        reply_is_pieces_before_end(body + reads[0], rest, end - 1);
        assert(reads.take(end).drop_first() =~= rest.take(end - 1));
        assert(reads.take(end).first() == reads[0]);
        assert(absorb_all(body, reads) =~= body + reads.take(end).flatten());
    }
}

/// Where the reply came back well, the report is `OK`, the time in milliseconds, and the relay's
/// own account, of which nothing is lost.
pub proof fn report_of_spoken_reply(r: TalkResponse, elapsed_ms: nat)
    requires
        r.status == 200,
    ensures
        ({
            let t = TalkOutcome::Replied(r).report(elapsed_ms);
            let d = text::decimal(elapsed_ms).len() as int;
            &&& t.len() == 3 + d + 11 + r.timing@.len()
            &&& t.take(3) == seq!['O', 'K', ' ']
            &&& t.subrange(3, 3 + d) == text::decimal(elapsed_ms)
            &&& t.subrange(3 + d, 14 + d) == seq![
                'm', 's', ' ', '(', 'd', 'e', 'v', ')', ' ', '/', ' ',
            ]
            &&& t.skip(14 + d) == r.timing@
        }),
{
    reveal_strlit("OK ");
    reveal_strlit("ms (dev) / ");
    let t = TalkOutcome::Replied(r).report(elapsed_ms);
    let d = text::decimal(elapsed_ms).len() as int;
    assert(t.take(3) =~= seq!['O', 'K', ' ']);
    assert(t.subrange(3, 3 + d) =~= text::decimal(elapsed_ms));
    assert(t.subrange(3 + d, 14 + d) =~= seq![
        'm', 's', ' ', '(', 'd', 'e', 'v', ')', ' ', '/', ' ',
    ]);
    assert(t.skip(14 + d) =~= r.timing@);
}

/// Where the relay refused, the report names the status and the time in milliseconds.
pub proof fn report_of_refusal(r: TalkResponse, elapsed_ms: nat)
    requires
        r.status != 200,
    ensures
        ({
            let t = TalkOutcome::Replied(r).report(elapsed_ms);
            let s = text::decimal(r.status as nat).len() as int;
            let d = text::decimal(elapsed_ms).len() as int;
            &&& t.len() == 13 + s + 2 + d + 3
            &&& t.take(13) == "Relay error: "@
            &&& t.subrange(13, 13 + s) == text::decimal(r.status as nat)
            &&& t.subrange(13 + s, 15 + s) == seq![' ', '(']
            &&& t.subrange(15 + s, 15 + s + d) == text::decimal(elapsed_ms)
            &&& t.skip(15 + s + d) == seq!['m', 's', ')']
        }),
{
    reveal_strlit("Relay error: ");
    reveal_strlit(" (");
    reveal_strlit("ms)");
    let t = TalkOutcome::Replied(r).report(elapsed_ms);
    let s = text::decimal(r.status as nat).len() as int;
    let d = text::decimal(elapsed_ms).len() as int;
    assert(t.take(13) =~= "Relay error: "@);
    assert(t.subrange(13, 13 + s) =~= text::decimal(r.status as nat));
    assert(t.subrange(13 + s, 15 + s) =~= seq![' ', '(']);
    assert(t.subrange(15 + s, 15 + s + d) =~= text::decimal(elapsed_ms));
    assert(t.skip(15 + s + d) =~= seq!['m', 's', ')']);
}

/// Where the exchange broke down, the report says so and gives the time in milliseconds.
pub proof fn report_of_failure(elapsed_ms: nat)
    ensures
        ({
            let t = TalkOutcome::Failed.report(elapsed_ms);
            let d = text::decimal(elapsed_ms).len() as int;
            &&& t.len() == 13 + d + 3
            &&& t.take(13) == "Send FAILED ("@
            &&& t.subrange(13, 13 + d) == text::decimal(elapsed_ms)
            &&& t.skip(13 + d) == seq!['m', 's', ')']
        }),
{
    reveal_strlit("Send FAILED (");
    reveal_strlit("ms)");
    let t = TalkOutcome::Failed.report(elapsed_ms);
    let d = text::decimal(elapsed_ms).len() as int;
    assert(t.take(13) =~= "Send FAILED ("@);
    assert(t.subrange(13, 13 + d) =~= text::decimal(elapsed_ms));
    assert(t.skip(13 + d) =~= seq!['m', 's', ')']);
}

/// The announced length and the lengths in the WAV header agree for every recording: it is 44 more
/// than the header's data size and 8 more than its total, in decimal digits.
pub proof fn announced_length_agrees_with_header(pcm: Seq<u8>, sample_rate: u32)
    requires
        36 + pcm.len() <= u32::MAX,
        sample_rate * 2 <= u32::MAX,
    ensures
        ({
            let h = wav::wav_header_bytes(pcm.len() as int, sample_rate as int);
            let announced = text::decimal_value(
                text::decimal(wav::WAV_HEADER_BYTES as nat + pcm.len()),
            );
            &&& announced == 44 + pcm.len()
            &&& announced == h.len() + pcm.len()
            &&& announced == 44 + h[40] + 256 * h[41] + 65536 * h[42] + 16777216 * h[43]
            &&& announced == 8 + h[4] + 256 * h[5] + 65536 * h[6] + 16777216 * h[7]
        }),
{
    text::decimal_denotes(wav::WAV_HEADER_BYTES as nat + pcm.len());
    wav::wav_header_byte_by_byte(pcm.len() as u32, sample_rate);
}

} // verus!
