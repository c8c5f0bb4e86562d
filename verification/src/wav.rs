//! The WAV header that precedes a recording.

use crate::bytes;
use vstd::prelude::*;

verus! {

/// Length of a WAV header in bytes.
pub const WAV_HEADER_BYTES: usize = 44;

/// `RIFF` in ASCII.
pub open spec fn riff_tag() -> Seq<u8> {
    seq![0x52u8, 0x49, 0x46, 0x46]
}

/// `WAVEfmt ` in ASCII.
pub open spec fn wave_fmt_tag() -> Seq<u8> {
    seq![0x57u8, 0x41, 0x56, 0x45, 0x66, 0x6d, 0x74, 0x20]
}

/// `data` in ASCII.
pub open spec fn data_tag() -> Seq<u8> {
    seq![0x64u8, 0x61, 0x74, 0x61]
}

/// The header of a WAV file that holds `pcm_len` bytes of mono 16-bit PCM: a `RIFF` chunk, in it
/// a `fmt ` chunk and the head of the `data` chunk.
pub open spec fn wav_header_bytes(pcm_len: int, sample_rate: int) -> Seq<u8> {
    riff_tag() + bytes::le32(36 + pcm_len)
        + wave_fmt_tag() + bytes::le32(16)
        + bytes::le16(1)  // PCM
        + bytes::le16(1)  // one channel
        + bytes::le32(sample_rate) + bytes::le32(sample_rate * 2)
        + bytes::le16(2)  // block align
        + bytes::le16(16)  // bits per sample
        + data_tag() + bytes::le32(pcm_len)
}

/// Builds the 44-byte WAV header for mono 16-bit PCM.
pub fn wav_header(pcm_len: u32, sample_rate: u32) -> (h: [u8; 44])
    requires
        36 + pcm_len <= u32::MAX,
        sample_rate * 2 <= u32::MAX,
    ensures
        h@ == wav_header_bytes(pcm_len as int, sample_rate as int),
{
    let byte_rate: u32 = sample_rate * 2;  // mono, 16 bits
    let riff = bytes::le32_bytes(36 + pcm_len);
    let rate = bytes::le32_bytes(sample_rate);
    let per_second = bytes::le32_bytes(byte_rate);
    let data = bytes::le32_bytes(pcm_len);
    let h = [
        0x52, 0x49, 0x46, 0x46, riff[0], riff[1], riff[2], riff[3],
        0x57, 0x41, 0x56, 0x45, 0x66, 0x6d, 0x74, 0x20,
        16, 0, 0, 0,  // size of the fmt chunk
        1, 0,  // PCM
        1, 0,  // one channel
        rate[0], rate[1], rate[2], rate[3],
        per_second[0], per_second[1], per_second[2], per_second[3],
        2, 0,  // block align
        16, 0,  // bits per sample
        0x64, 0x61, 0x74, 0x61, data[0], data[1], data[2], data[3],
    ];
    assert(h@ =~= wav_header_bytes(pcm_len as int, sample_rate as int));
    h
}

/// Where each field of the header stands.
#[verifier::spinoff_prover]
#[verifier::rlimit(40)]
proof fn header_fields(n: int, rate: int)
    ensures
        ({
            let h = wav_header_bytes(n, rate);
            &&& h.len() == 44
            &&& h.subrange(0, 4) == riff_tag()
            &&& bytes::le32_at(h, 4) == bytes::le32_at(bytes::le32(36 + n), 0)
            &&& h.subrange(8, 16) == wave_fmt_tag()
            &&& bytes::le32_at(h, 16) == bytes::le32_at(bytes::le32(16), 0)
            &&& bytes::le16_at(h, 20) == 1
            &&& bytes::le16_at(h, 22) == 1
            &&& bytes::le32_at(h, 24) == bytes::le32_at(bytes::le32(rate), 0)
            &&& bytes::le32_at(h, 28) == bytes::le32_at(bytes::le32(rate * 2), 0)
            &&& bytes::le16_at(h, 32) == 2
            &&& bytes::le16_at(h, 34) == 16
            &&& h.subrange(36, 40) == data_tag()
            &&& bytes::le32_at(h, 40) == bytes::le32_at(bytes::le32(n), 0)
        }),
{
    let h = wav_header_bytes(n, rate);
    assert(h.subrange(0, 4) =~= riff_tag());
    assert(h.subrange(8, 16) =~= wave_fmt_tag());
    assert(h.subrange(36, 40) =~= data_tag());
}

/// A WAV file made of the header and the recording describes itself: both chunk sizes count the
/// bytes that follow them, and the format fields name mono 16-bit PCM at the given rate, with a
/// byte rate and a block size that agree with the number of channels and of bits.
pub proof fn wav_file_describes_itself(pcm: Seq<u8>, sample_rate: u32)
    requires
        36 + pcm.len() <= u32::MAX,
        sample_rate * 2 <= u32::MAX,
    ensures
        ({
            let header = wav_header_bytes(pcm.len() as int, sample_rate as int);
            let file = header + pcm;
            let channels = bytes::le16_at(file, 22);
            let bits = bytes::le16_at(file, 34);
            &&& header.len() == WAV_HEADER_BYTES
            &&& file.subrange(0, 4) == riff_tag()
            &&& bytes::le32_at(file, 4) == file.len() - 8
            &&& file.subrange(8, 16) == wave_fmt_tag()
            &&& bytes::le32_at(file, 16) == 16
            &&& bytes::le16_at(file, 20) == 1
            &&& channels == 1
            &&& bytes::le32_at(file, 24) == sample_rate
            &&& bytes::le32_at(file, 28) == sample_rate * channels * bits / 8
            &&& bytes::le16_at(file, 32) == channels * bits / 8
            &&& bits == 16
            &&& file.subrange(36, 40) == data_tag()
            &&& bytes::le32_at(file, 40) == file.len() - WAV_HEADER_BYTES
            &&& file.skip(WAV_HEADER_BYTES as int) == pcm
        }),
{
    let n = pcm.len() as int;
    let rate = sample_rate as int;
    let header = wav_header_bytes(n, rate);
    let file = header + pcm;
    header_fields(n, rate);
    bytes::le32_read_back(36 + n);
    bytes::le32_read_back(16);
    bytes::le32_read_back(rate);
    bytes::le32_read_back(rate * 2);
    bytes::le32_read_back(n);
    assert(file.subrange(0, 4) =~= header.subrange(0, 4));
    assert(file.subrange(8, 16) =~= header.subrange(8, 16));
    assert(file.subrange(36, 40) =~= header.subrange(36, 40));
    assert(file.skip(44) =~= pcm);
    assert(rate * 1 * 16 / 8 == rate * 2);
}

/// Two recordings have the same header only if they agree in length and sample rate.
pub proof fn wav_header_is_injective(len_a: u32, rate_a: u32, len_b: u32, rate_b: u32)
    requires
        wav_header_bytes(len_a as int, rate_a as int) == wav_header_bytes(
            len_b as int,
            rate_b as int,
        ),
    ensures
        len_a == len_b,
        rate_a == rate_b,
{
    header_fields(len_a as int, rate_a as int);
    header_fields(len_b as int, rate_b as int);
    bytes::le32_read_back(rate_a as int);
    bytes::le32_read_back(rate_b as int);
    bytes::le32_read_back(len_a as int);
    bytes::le32_read_back(len_b as int);
}

/// The header byte by byte: the tags in ASCII, and every number with the weights of its bytes.
#[verifier::spinoff_prover]
#[verifier::rlimit(40)]
pub proof fn wav_header_byte_by_byte(pcm_len: u32, sample_rate: u32)
    requires
        36 + pcm_len <= u32::MAX,
        sample_rate * 2 <= u32::MAX,
    ensures
        ({
            let h = wav_header_bytes(pcm_len as int, sample_rate as int);
            &&& h.len() == 44
            &&& h[0] == 0x52 && h[1] == 0x49 && h[2] == 0x46 && h[3] == 0x46
            &&& h[4] + 256 * h[5] + 65536 * h[6] + 16777216 * h[7] == 36 + pcm_len
            &&& h[8] == 0x57 && h[9] == 0x41 && h[10] == 0x56 && h[11] == 0x45
            &&& h[12] == 0x66 && h[13] == 0x6d && h[14] == 0x74 && h[15] == 0x20
            &&& h[16] == 16 && h[17] == 0 && h[18] == 0 && h[19] == 0
            &&& h[20] == 1 && h[21] == 0
            &&& h[22] == 1 && h[23] == 0
            &&& h[24] + 256 * h[25] + 65536 * h[26] + 16777216 * h[27] == sample_rate
            &&& h[28] + 256 * h[29] + 65536 * h[30] + 16777216 * h[31] == 2 * sample_rate
            &&& h[32] == 2 && h[33] == 0
            &&& h[34] == 16 && h[35] == 0
            &&& h[36] == 0x64 && h[37] == 0x61 && h[38] == 0x74 && h[39] == 0x61
            &&& h[40] + 256 * h[41] + 65536 * h[42] + 16777216 * h[43] == pcm_len
        }),
{
    let n = pcm_len as int;
    let rate = sample_rate as int;
    header_fields(n, rate);
    bytes::le32_read_back(36 + n);
    bytes::le32_read_back(16);
    bytes::le32_read_back(rate);
    bytes::le32_read_back(rate * 2);
    bytes::le32_read_back(n);
    fields_byte_by_byte(wav_header_bytes(n, rate), n, rate);
}

/// The bytes of anything that has the header's fields at the header's places.
proof fn fields_byte_by_byte(h: Seq<u8>, n: int, rate: int)
    requires
        h.len() == 44,
        h.subrange(0, 4) == riff_tag(),
        bytes::le32_at(h, 4) == 36 + n,
        h.subrange(8, 16) == wave_fmt_tag(),
        bytes::le32_at(h, 16) == 16,
        bytes::le16_at(h, 20) == 1,
        bytes::le16_at(h, 22) == 1,
        bytes::le32_at(h, 24) == rate,
        bytes::le32_at(h, 28) == rate * 2,
        bytes::le16_at(h, 32) == 2,
        bytes::le16_at(h, 34) == 16,
        h.subrange(36, 40) == data_tag(),
        bytes::le32_at(h, 40) == n,
    ensures
        h[0] == 0x52 && h[1] == 0x49 && h[2] == 0x46 && h[3] == 0x46,
        h[4] + 256 * h[5] + 65536 * h[6] + 16777216 * h[7] == 36 + n,
        h[8] == 0x57 && h[9] == 0x41 && h[10] == 0x56 && h[11] == 0x45,
        h[12] == 0x66 && h[13] == 0x6d && h[14] == 0x74 && h[15] == 0x20,
        h[16] == 16 && h[17] == 0 && h[18] == 0 && h[19] == 0,
        h[20] == 1 && h[21] == 0,
        h[22] == 1 && h[23] == 0,
        h[24] + 256 * h[25] + 65536 * h[26] + 16777216 * h[27] == rate,
        h[28] + 256 * h[29] + 65536 * h[30] + 16777216 * h[31] == 2 * rate,
        h[32] == 2 && h[33] == 0,
        h[34] == 16 && h[35] == 0,
        h[36] == 0x64 && h[37] == 0x61 && h[38] == 0x74 && h[39] == 0x61,
        h[40] + 256 * h[41] + 65536 * h[42] + 16777216 * h[43] == n,
{
    assert forall|i: int| 0 <= i < 4 implies h[i] == riff_tag()[i] by {
        assert(h.subrange(0, 4)[i] == h[i]);
    }
    assert forall|i: int| 8 <= i < 16 implies h[i] == wave_fmt_tag()[i - 8] by {
        assert(h.subrange(8, 16)[i - 8] == h[i]);
    }
    assert forall|i: int| 36 <= i < 40 implies h[i] == data_tag()[i - 36] by {
        assert(h.subrange(36, 40)[i - 36] == h[i]);
    }
}

} // verus!
