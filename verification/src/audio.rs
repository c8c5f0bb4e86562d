//! PCM audio: interleaved 16-bit stereo as the I2S bus carries it, and the mono recordings and
//! replies that are exchanged over the network.

use crate::bytes;
use vstd::prelude::*;

verus! {

/// Sample rate of recording and playback.
pub const SAMPLE_RATE_HZ: u32 = 16000;

/// Number of stereo frames of the beep's tone: 80 ms.
pub const TONE_FRAMES: usize = 1280;

/// Number of silent stereo frames after the tone: 150 ms.
pub const SILENCE_FRAMES: usize = 2400;

/// Number of whole stereo frames (four bytes each) in a block of audio.
pub open spec fn frames(audio: Seq<u8>) -> int {
    audio.len() as int / 4
}

/// The left channel of a block of stereo audio, as mono PCM. An incomplete last frame is left
/// out.
pub open spec fn left_channel(audio: Seq<u8>) -> Seq<u8> {
    Seq::new((2 * frames(audio)) as nat, |i: int| audio[4 * (i / 2) + i % 2])
}

/// The right channel of a block of stereo audio, as mono PCM.
pub open spec fn right_channel(audio: Seq<u8>) -> Seq<u8> {
    Seq::new((2 * frames(audio)) as nat, |i: int| audio[4 * (i / 2) + 2 + i % 2])
}

/// Mono PCM with every sample on both channels. An incomplete last sample is left out.
pub open spec fn stereo(mono: Seq<u8>) -> Seq<u8> {
    Seq::new((4 * (mono.len() as int / 2)) as nat, |i: int| mono[2 * (i / 4) + i % 2])
}

/// Sample number `k` of mono PCM.
pub open spec fn sample(mono: Seq<u8>, k: int) -> int {
    bytes::sample_of(mono[2 * k], mono[2 * k + 1])
}

/// The sum of the squares of the first `k` samples of the left channel.
pub open spec fn sum_of_squares(audio: Seq<u8>, k: int) -> int
    decreases k,
{
    if k <= 0 {
        0
    } else {
        sum_of_squares(audio, k - 1) + sample(left_channel(audio), k - 1) * sample(
            left_channel(audio),
            k - 1,
        )
    }
}

/// The mean of the squares of the left channel's samples, rounded down; 0 for no sample.
pub open spec fn mean_of_squares(audio: Seq<u8>) -> int {
    if frames(audio) > 0 {
        sum_of_squares(audio, frames(audio)) / frames(audio)
    } else {
        0
    }
}

proof fn square_bound(s: int)
    requires
        -32768 <= s <= 32767,
    ensures
        0 <= s * s <= 0x4000_0000,
{
    assert(0 <= s * s <= 0x4000_0000) by (nonlinear_arith)
        requires
            -32768 <= s <= 32767,
    ;
}

proof fn sum_bound(audio: Seq<u8>, k: int)
    requires
        0 <= k,
    ensures
        0 <= sum_of_squares(audio, k) <= k * 0x4000_0000,
    decreases k,
{
    if k > 0 {
        sum_bound(audio, k - 1);
        square_bound(sample(left_channel(audio), k - 1));
    }
}

/// The mean square never exceeds that of a full-scale signal, so a level never exceeds 0 dB.
pub proof fn level_is_at_most_full_scale(audio: Seq<u8>)
    ensures
        0 <= mean_of_squares(audio) <= 32768 * 32768,
{
    let n = frames(audio);
    if n > 0 {
        let sum = sum_of_squares(audio, n);
        sum_bound(audio, n);
        assert(0 <= sum / n <= 0x4000_0000) by (nonlinear_arith)
            requires
                n > 0,
                0 <= sum <= n * 0x4000_0000,
        ;
    }
}

/// The mean square of the left channel of a block of stereo audio.
pub fn mean_square(audio: &[u8]) -> (mean: i64)
    requires
        frames(audio@) * 0x4000_0000 <= i64::MAX,
    ensures
        mean == mean_of_squares(audio@),
{
    let len: usize = audio.len();
    let count: usize = len / 4;
    let mut sum: i64 = 0;
    let mut k: usize = 0;
    while k < count
        invariant
            len == audio@.len(),
            k <= count == frames(audio@),
            count * 0x4000_0000 <= i64::MAX,
            sum == sum_of_squares(audio@, k as int),
        decreases count - k,
    {
        let s: i64 = bytes::sample_from_bytes(audio[4 * k], audio[4 * k + 1]) as i64;
        proof {
            assert(s == sample(left_channel(audio@), k as int));
            square_bound(s as int);
            sum_bound(audio@, k as int);
        }
        sum = sum + s * s;
        k = k + 1;
    }
    if count > 0 {
        proof {
            sum_bound(audio@, count as int);
        }
        sum / count as i64
    } else {
        0
    }
}

/// Appends the left channel of `audio` to mono PCM, until it holds `limit` bytes.
pub fn append_left(pcm: &mut Vec<u8>, audio: &[u8], limit: usize)
    requires
        old(pcm)@.len() % 2 == 0,
        old(pcm)@.len() <= limit,
        limit % 2 == 0,
    ensures
        final(pcm)@ == capped(old(pcm)@ + left_channel(audio@), limit as int),
{
    let len: usize = audio.len();
    let count: usize = len / 4;
    let mut k: usize = 0;
    while k < count
        invariant
            len == audio@.len(),
            k <= count == frames(audio@),
            limit % 2 == 0,
            old(pcm)@.len() % 2 == 0,
            old(pcm)@.len() <= limit,
            pcm@ == capped(old(pcm)@ + left_channel(audio@).take(2 * k as int), limit as int),
        decreases count - k,
    {
        let ghost left = left_channel(audio@);
        if pcm.len() < limit {
            pcm.push(audio[4 * k]);
            pcm.push(audio[4 * k + 1]);
        }
        assert(left.take(2 * (k + 1)) =~= left.take(2 * k as int).push(left[2 * k as int]).push(
            left[2 * k + 1],
        ));
        assert(pcm@ =~= capped(old(pcm)@ + left.take(2 * (k + 1)), limit as int));
        k = k + 1;
    }
    assert(left_channel(audio@).take(2 * count as int) =~= left_channel(audio@));
}

/// The first `limit` bytes of a sequence, or all of it where it is shorter.
pub open spec fn capped(s: Seq<u8>, limit: int) -> Seq<u8> {
    if s.len() <= limit {
        s
    } else {
        s.take(limit)
    }
}

/// Puts mono PCM on both channels.
pub fn to_stereo(mono: &[u8]) -> (out: Vec<u8>)
    requires
        2 * mono@.len() <= isize::MAX,
    ensures
        out@ == stereo(mono@),
{
    let mut out: Vec<u8> = Vec::with_capacity(mono.len() * 2);
    let count: usize = mono.len() / 2;
    let mut k: usize = 0;
    while k < count
        invariant
            k <= count == mono@.len() as int / 2,
            2 * mono@.len() <= isize::MAX,
            out@ == stereo(mono@).take(4 * k as int),
        decreases count - k,
    {
        let lo = mono[2 * k];
        let hi = mono[2 * k + 1];
        out.push(lo);
        out.push(hi);
        out.push(lo);
        out.push(hi);
        assert(out@ =~= stereo(mono@).take(4 * (k + 1)));
        k = k + 1;
    }
    assert(stereo(mono@).take(4 * count as int) =~= stereo(mono@));
    out
}

/// The mono PCM of a signal given by its samples.
pub open spec fn pcm_of(samples: Seq<i16>) -> Seq<u8> {
    Seq::new(2 * samples.len(), |i: int| bytes::le_sample(samples[i / 2] as int)[i % 2])
}

/// The samples of the beep: the tone, then silence.
pub open spec fn beep_samples(tone: Seq<i16>) -> Seq<i16> {
    tone + Seq::new(SILENCE_FRAMES as nat, |i: int| 0i16)
}

/// The beep that is played when a recording starts, as stereo PCM: the given tone, then silence.
///
/// The silence is part of the beep because the I2S transmitter repeats its last buffer when it
/// runs out of data.
pub fn beep(tone: &[i16; TONE_FRAMES]) -> (out: Vec<u8>)
    ensures
        out@ == stereo(pcm_of(beep_samples(tone@))),
{
    let ghost whole = stereo(pcm_of(beep_samples(tone@)));
    let total: usize = TONE_FRAMES + SILENCE_FRAMES;
    let mut out: Vec<u8> = Vec::with_capacity(total * 4);
    let mut n: usize = 0;
    while n < total
        invariant
            n <= total == TONE_FRAMES + SILENCE_FRAMES,
            whole == stereo(pcm_of(beep_samples(tone@))),
            out@ == whole.take(4 * n as int),
        decreases total - n,
    {
        let s: i16 = if n < TONE_FRAMES {
            tone[n]
        } else {
            0
        };
        let b = bytes::sample_bytes(s);
        proof {
            let samples = beep_samples(tone@);
            assert(s == samples[n as int]);
            assert(pcm_of(samples)[2 * n as int] == b@[0]);
            assert(pcm_of(samples)[2 * n + 1] == b@[1]);
        }
        out.push(b[0]);
        out.push(b[1]);
        out.push(b[0]);
        out.push(b[1]);
        assert(out@ =~= whole.take(4 * (n + 1)));
        n = n + 1;
    }
    assert(whole.take(4 * total as int) =~= whole);
    out
}

/// The samples of a signal are read back from its PCM.
pub proof fn pcm_carries_samples(samples: Seq<i16>)
    ensures
        pcm_of(samples).len() == 2 * samples.len(),
        forall|k: int|
            0 <= k < samples.len() ==> sample(pcm_of(samples), k) == #[trigger] samples[k],
{
    assert forall|k: int| 0 <= k < samples.len() implies sample(pcm_of(samples), k)
        == #[trigger] samples[k] by {
        bytes::le_sample_read_back(samples[k] as int);
    }
}

/// Whatever the tone, the beep lasts as long as the tone and 150 ms more, and is silent on both
/// channels from where the tone ends.
pub proof fn beep_ends_in_silence(tone: Seq<i16>)
    ensures
        ({
            let out = stereo(pcm_of(beep_samples(tone)));
            &&& frames(out) == tone.len() + SILENCE_FRAMES
            &&& SILENCE_FRAMES * 1000 == SAMPLE_RATE_HZ * 150
            &&& forall|i: int| 4 * tone.len() <= i < out.len() ==> #[trigger] out[i] == 0
        }),
{
}

/// The samples of the tone come first in the beep, on both channels.
pub proof fn beep_starts_with_tone(tone: Seq<i16>, k: int)
    requires
        0 <= k < tone.len(),
    ensures
        sample(left_channel(stereo(pcm_of(beep_samples(tone)))), k) == tone[k],
        sample(right_channel(stereo(pcm_of(beep_samples(tone)))), k) == tone[k],
{
    let mono = pcm_of(beep_samples(tone));
    stereo_carries_mono_on_both_channels(mono);
    pcm_carries_samples(beep_samples(tone));
    assert(sample(mono, k) == beep_samples(tone)[k]);
}

/// Splitting the stereo form of a mono signal gives the signal back, on either channel.
pub proof fn stereo_carries_mono_on_both_channels(mono: Seq<u8>)
    ensures
        left_channel(stereo(mono)) == mono.take(2 * (mono.len() as int / 2)),
        right_channel(stereo(mono)) == mono.take(2 * (mono.len() as int / 2)),
{
    assert(left_channel(stereo(mono)) =~= mono.take(2 * (mono.len() as int / 2)));
    assert(right_channel(stereo(mono)) =~= mono.take(2 * (mono.len() as int / 2)));
}

/// The left channel takes the first two bytes of every whole frame of four, and nothing else.
pub proof fn left_channel_is_first_half_of_each_frame(audio: Seq<u8>, k: int)
    requires
        0 <= k,
        4 * k + 3 < audio.len(),
    ensures
        left_channel(audio).len() == 2 * (audio.len() as int / 4),
        left_channel(audio)[2 * k] == audio[4 * k],
        left_channel(audio)[2 * k + 1] == audio[4 * k + 1],
        right_channel(audio).len() == 2 * (audio.len() as int / 4),
        right_channel(audio)[2 * k] == audio[4 * k + 2],
        right_channel(audio)[2 * k + 1] == audio[4 * k + 3],
{
}

/// What the other microphone hears does not matter: blocks of the same length that agree on the
/// first two bytes of every whole frame have the same left channel and the same level.
pub proof fn right_channel_is_ignored(a: Seq<u8>, b: Seq<u8>)
    requires
        a.len() == b.len(),
        forall|k: int|
            0 <= k && 4 * k + 3 < a.len() ==> #[trigger] a[4 * k] == b[4 * k] && a[4 * k + 1] == b[4 * k
                + 1],
    ensures
        left_channel(a) == left_channel(b),
        mean_of_squares(a) == mean_of_squares(b),
{
    assert forall|i: int| 0 <= i < left_channel(a).len() implies left_channel(a)[i]
        == left_channel(b)[i] by {
        let k = i / 2;
        assert(4 * k + 3 < a.len());
        assert(a[4 * k] == b[4 * k]);
    }
    assert(left_channel(a) =~= left_channel(b));
    same_left_same_sum(a, b, frames(a));
}

proof fn same_left_same_sum(a: Seq<u8>, b: Seq<u8>, k: int)
    requires
        left_channel(a) == left_channel(b),
    ensures
        sum_of_squares(a, k) == sum_of_squares(b, k),
    decreases k,
{
    if k > 0 {
        same_left_same_sum(a, b, k - 1);
    }
}

/// A block with no whole frame has no left channel and the level 0.
pub proof fn no_frame_no_sound(audio: Seq<u8>)
    requires
        audio.len() < 4,
    ensures
        left_channel(audio).len() == 0,
        mean_of_squares(audio) == 0,
{
}

/// The level measures every frame: it is the mean of the squares of all left samples, rounded
/// down. Here `samples` are those samples, each the signed number that the first two bytes of its
/// frame stand for.
pub proof fn level_is_mean_over_all_frames(audio: Seq<u8>, samples: Seq<int>)
    requires
        samples.len() == audio.len() as int / 4,
        samples.len() > 0,
        forall|k: int|
            0 <= k < samples.len() ==> -32768 <= (#[trigger] samples[k]) <= 32767 && (samples[k]
                - audio[4 * k] - 256 * audio[4 * k + 1]) % 65536 == 0,
    ensures
        ({
            let n = samples.len() as int;
            let sum = samples.fold_left(0int, |acc: int, s: int| acc + s * s);
            n * mean_of_squares(audio) <= sum < n * (mean_of_squares(audio) + 1)
        }),
{
    let n = samples.len() as int;
    let add_square = |acc: int, s: int| acc + s * s;
    sum_is_fold(audio, samples, n, add_square);
    assert(samples.take(n) =~= samples);
    let sum = samples.fold_left(0int, add_square);
    let mean = mean_of_squares(audio);
    assert(mean == sum / n);
    assert(n * (sum / n) <= sum < n * (sum / n + 1)) by (nonlinear_arith)
        requires
            n > 0,
    ;
}

proof fn sum_is_fold(audio: Seq<u8>, samples: Seq<int>, k: int, f: spec_fn(int, int) -> int)
    requires
        0 <= k <= samples.len(),
        samples.len() == audio.len() as int / 4,
        forall|acc: int, s: int| #[trigger] f(acc, s) == acc + s * s,
        forall|j: int|
            0 <= j < samples.len() ==> -32768 <= (#[trigger] samples[j]) <= 32767 && (samples[j]
                - audio[4 * j] - 256 * audio[4 * j + 1]) % 65536 == 0,
    ensures
        sum_of_squares(audio, k) == samples.take(k).fold_left(0int, f),
    decreases k,
{
    if k > 0 {
        sum_is_fold(audio, samples, k - 1, f);
        assert(samples.take(k).drop_last() =~= samples.take(k - 1));
        assert(samples.take(k).last() == samples[k - 1]);
        left_channel_is_first_half_of_each_frame(audio, k - 1);
        let s = sample(left_channel(audio), k - 1);
        bytes::sample_is_twos_complement(audio[4 * (k - 1)], audio[4 * (k - 1) + 1]);
        assert(s == samples[k - 1]);
    }
}

/// Two blocks with the same left samples in a different order have the same level: here `b` is
/// `a` with frames `i` and `j` exchanged.
pub proof fn level_does_not_depend_on_order(a: Seq<u8>, b: Seq<u8>, i: int, j: int)
    requires
        a.len() == b.len(),
        0 <= i < j,
        4 * j + 3 < a.len(),
        a[4 * i] == b[4 * j] && a[4 * i + 1] == b[4 * j + 1],
        a[4 * j] == b[4 * i] && a[4 * j + 1] == b[4 * i + 1],
        forall|k: int|
            0 <= k && 4 * k + 3 < a.len() && k != i && k != j ==> #[trigger] a[4 * k] == b[4 * k]
                && a[4 * k + 1] == b[4 * k + 1],
    ensures
        mean_of_squares(a) == mean_of_squares(b),
{
    exchanged_sum(a, b, i, j, frames(a));
}

proof fn exchanged_sum(a: Seq<u8>, b: Seq<u8>, i: int, j: int, k: int)
    requires
        a.len() == b.len(),
        0 <= i < j,
        4 * j + 3 < a.len(),
        0 <= k <= frames(a),
        a[4 * i] == b[4 * j] && a[4 * i + 1] == b[4 * j + 1],
        a[4 * j] == b[4 * i] && a[4 * j + 1] == b[4 * i + 1],
        forall|m: int|
            0 <= m && 4 * m + 3 < a.len() && m != i && m != j ==> #[trigger] a[4 * m] == b[4 * m]
                && a[4 * m + 1] == b[4 * m + 1],
    ensures
        ({
            let at_i = sample(left_channel(a), i);
            let at_j = sample(left_channel(a), j);
            sum_of_squares(a, k) - sum_of_squares(b, k) == (if i < k <= j {
                at_i * at_i - at_j * at_j
            } else {
                0
            })
        }),
    decreases k,
{
    if k > 0 {
        exchanged_sum(a, b, i, j, k - 1);
        left_channel_is_first_half_of_each_frame(a, k - 1);
        left_channel_is_first_half_of_each_frame(b, k - 1);
        left_channel_is_first_half_of_each_frame(a, i);
        left_channel_is_first_half_of_each_frame(a, j);
    }
}

/// What recording a block does to a recording that has room: what was there stays, then come the
/// first two bytes of each frame in order, until the limit is reached.
pub proof fn recording_grows_by_left_samples(pcm: Seq<u8>, audio: Seq<u8>, limit: int)
    requires
        pcm.len() <= limit,
    ensures
        ({
            let out = capped(pcm + left_channel(audio), limit);
            &&& out.len() == (if pcm.len() + 2 * (audio.len() as int / 4) <= limit {
                pcm.len() + 2 * (audio.len() as int / 4)
            } else {
                limit
            })
            &&& forall|i: int| 0 <= i < pcm.len() ==> #[trigger] out[i] == pcm[i]
            &&& forall|i: int|
                pcm.len() <= i < out.len() ==> #[trigger] out[i] == audio[4 * ((i - pcm.len()) / 2)
                    + (i - pcm.len()) % 2]
        }),
{
}

/// Every sample of the mono signal takes the place of four bytes: on the left, then the same on
/// the right.
pub proof fn stereo_repeats_each_sample(mono: Seq<u8>, k: int)
    requires
        0 <= k,
        2 * k + 1 < mono.len(),
    ensures
        stereo(mono).len() == 4 * (mono.len() as int / 2),
        stereo(mono)[4 * k] == mono[2 * k],
        stereo(mono)[4 * k + 1] == mono[2 * k + 1],
        stereo(mono)[4 * k + 2] == mono[2 * k],
        stereo(mono)[4 * k + 3] == mono[2 * k + 1],
{
}

/// The beep frame by frame: as many frames as the tone has samples and 2400 more; each of the
/// first holds its sample of the tone on both channels, low byte first; all others are zero.
pub proof fn beep_frame_by_frame(tone: Seq<i16>, k: int)
    requires
        0 <= k < tone.len() + 2400,
    ensures
        ({
            let out = stereo(pcm_of(beep_samples(tone)));
            &&& out.len() == 4 * (tone.len() + 2400)
            &&& out[4 * k + 2] == out[4 * k]
            &&& out[4 * k + 3] == out[4 * k + 1]
            &&& k < tone.len() ==> (out[4 * k] + 256 * out[4 * k + 1] - tone[k]) % 65536 == 0
            &&& k >= tone.len() ==> out[4 * k] == 0 && out[4 * k + 1] == 0
        }),
{
    let samples = beep_samples(tone);
    let mono = pcm_of(samples);
    stereo_repeats_each_sample(mono, k);
    bytes::le_sample_read_back(samples[k] as int);
    assert(mono[2 * k] == bytes::le_sample(samples[k] as int)[0]);
    assert(mono[2 * k + 1] == bytes::le_sample(samples[k] as int)[1]);
}

} // verus!
