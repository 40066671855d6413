//! WAVE files with 16-bit PCM audio.

use vstd::prelude::*;

use crate::pcm::{bytes_hold_the_values, le16, pcm_bytes};
use crate::text::join;

verus! {

/// Bits per sample of the files written here.
pub const BITS_PER_SAMPLE: u16 = 16;

/// A number as four bytes, the low one first.
pub open spec fn le32(x: int) -> Seq<u8> {
    le16(x % 65536) + le16(x / 65536)
}

/// One bit per channel; only the lowest 18 bits name a speaker.
pub open spec fn channel_mask(channels: u16) -> int {
    if channels >= 18 {
        0x3FFFF
    } else {
        vstd::arithmetic::power2::pow2(channels as nat) - 1
    }
}

/// The fields that every format description begins with: channel count, sample rate, bytes per
/// second, bytes per frame and bits per sample.
pub open spec fn common_format(channels: u16, sample_rate: u32) -> Seq<u8> {
    le16(channels as int) + le32(sample_rate as int) + le32(sample_rate * 2 * channels) + le16(
        (2 * channels) % 65536,
    ) + le16(BITS_PER_SAMPLE as int)
}

/// The format chunk: the plain one for one or two channels, else the extensible one with its
/// number of valid bits, channel mask and PCM subformat.
pub open spec fn format_chunk(channels: u16, sample_rate: u32) -> Seq<u8> {
    if channels <= 2 {
        le32(16) + le16(1) + common_format(channels, sample_rate)
    } else {
        le32(40) + le16(0xFFFE) + common_format(channels, sample_rate) + le16(22) + le16(
            BITS_PER_SAMPLE as int,
        ) + le32(channel_mask(channels)) + pcm_subformat()
    }
}

/// Identifier of the PCM subformat.
pub open spec fn pcm_subformat() -> Seq<u8> {
    seq![1, 0, 0, 0, 0, 0, 0x10, 0, 0x80, 0, 0, 0xAA, 0, 0x38, 0x9B, 0x71]
}

/// A four-letter name.
pub open spec fn tag(a: u8, b: u8, c: u8, d: u8) -> Seq<u8> {
    seq![a, b, c, d]
}

/// Everything that precedes the samples.
pub open spec fn header(channels: u16, sample_rate: u32, count: nat) -> Seq<u8> {
    let format = format_chunk(channels, sample_rate);
    let riff = tag(0x52, 0x49, 0x46, 0x46) + le32((format.len() + 16 + 2 * count) as int);
    let wave = tag(0x57, 0x41, 0x56, 0x45) + tag(0x66, 0x6D, 0x74, 0x20) + format;
    let data = tag(0x64, 0x61, 0x74, 0x61) + le32((2 * count) as int);
    riff + wave + data
}

/// A whole file.
pub open spec fn wav_file(channels: u16, sample_rate: u32, values: Seq<i16>) -> Seq<u8> {
    header(channels, sample_rate, values.len()) + pcm_bytes(values)
}

/// The sizes in the header can be computed in 32 bits.
pub open spec fn encodable(channels: u16, sample_rate: u32, count: nat) -> bool {
    &&& channels > 0
    &&& sample_rate > 0
    &&& sample_rate * 2 * channels <= u32::MAX
    &&& 2 * count + (if channels <= 2 {
        36int
    } else {
        60
    }) <= u32::MAX
}

/// Number of bytes that precede the samples.
pub proof fn header_length(channels: u16, sample_rate: u32, count: nat)
    ensures
        header(channels, sample_rate, count).len() == if channels <= 2 {
            44int
        } else {
            68
        },
{
    lemma_format(channels, sample_rate);
    lemma_header(channels, sample_rate, count);
}

/// The samples are the last part of the file.
pub proof fn samples_end_the_file(channels: u16, sample_rate: u32, values: Seq<i16>)
    ensures
        wav_file(channels, sample_rate, values).skip(
            header(channels, sample_rate, values.len()).len() as int,
        ) == pcm_bytes(values),
{
    assert(wav_file(channels, sample_rate, values).skip(
        header(channels, sample_rate, values.len()).len() as int,
    ) =~= pcm_bytes(values));
}

/// A file being written with `hound::WavWriter`, to a byte vector by way of `std::io::Cursor`.
#[verifier::external_body]
pub struct WavSink<'a> {
    writer: hound::WavWriter<std::io::Cursor<&'a mut Vec<u8>>>,
}

/// Number of channels and sample rate that the file was opened with.
pub uninterp spec fn format(sink: WavSink) -> (u16, u32);

/// The samples written so far.
pub uninterp spec fn written(sink: WavSink) -> Seq<i16>;

/// What the byte vector will hold once the file lets go of it.
pub uninterp spec fn destination(sink: WavSink) -> Seq<u8>;

/// Opens a file with `hound::WavWriter::new`, for integer samples.
///
/// Claimed of it: no sample is written yet, and it does not fail, as 16 bits per sample are
/// supported and memory takes every write.  The file borrows the vector until it is gone, so what
/// it leaves there is what the vector holds then.  The function divides by the sample rate and
/// computes the bytes per second in 32 bits, and takes the vector to be empty.
#[verifier::external_body]
fn open<'a>(
    file: &'a mut Vec<u8>,
    channels: u16,
    sample_rate: u32,
    bits_per_sample: u16,
) -> (r: Result<WavSink<'a>, String>)
    requires
        old(file)@.len() == 0,
        bits_per_sample == BITS_PER_SAMPLE,
        channels > 0,
        sample_rate > 0,
        sample_rate * 2 * channels <= u32::MAX,
    ensures
        r is Ok,
        format(r->Ok_0) == (channels, sample_rate),
        written(r->Ok_0) == Seq::<i16>::empty(),
        destination(r->Ok_0) == final(file)@,
{
    let sample_format = hound::SampleFormat::Int;
    let spec = hound::WavSpec { channels, sample_rate, bits_per_sample, sample_format };
    let opened = hound::WavWriter::new(std::io::Cursor::new(file), spec);
    opened.map(|writer| WavSink { writer }).map_err(|error| error.to_string())
}

/// Writes one sample with `hound::WavWriter::write_sample`.
///
/// Claimed of it: the sample follows those written before, and it does not fail, as every 16-bit
/// value fits and memory takes every write.  The number of bytes is counted in 32 bits.
#[verifier::external_body]
fn write_sample(sink: &mut WavSink, value: i16) -> (r: Result<(), String>)
    requires
        2 * (written(*old(sink)).len() + 1) <= u32::MAX,
    ensures
        r is Ok,
        format(*final(sink)) == format(*old(sink)),
        written(*final(sink)) == written(*old(sink)).push(value),
        destination(*final(sink)) == destination(*old(sink)),
{
    sink.writer.write_sample(value).map_err(|error| error.to_string())
}

/// Completes the file with `hound::WavWriter::finalize`.
///
/// Claimed of it: it fails, with the given text, when the last frame is incomplete, that is, when
/// the number of samples is not a multiple of the number of channels, and never otherwise, as
/// memory takes every write.  When it succeeds, the vector holds the header for 16-bit integer
/// samples and then the samples, each as two bytes, the low one first.  The sizes in the header are
/// computed in 32 bits.
#[verifier::external_body]
fn finalize(sink: WavSink) -> (r: Result<(), String>)
    requires
        encodable(format(sink).0, format(sink).1, written(sink).len()),
    ensures
        r is Ok == (written(sink).len() % (format(sink).0 as nat) == 0),
        r is Ok ==> destination(sink) == wav_file(format(sink).0, format(sink).1, written(sink)),
        r is Err ==> r->Err_0@
            == "The number of samples written is not a multiple of the number of channels."@,
{
    sink.writer.finalize().map_err(|error| error.to_string())
}

/// What is said of a file whose last frame is incomplete.
pub open spec fn incomplete_frame() -> Seq<char> {
    "完成 WAV 失败: "@
        + "The number of samples written is not a multiple of the number of channels."@
}

/// Encodes PCM values as a WAVE file, or says that the last frame is incomplete.
pub fn encode(channels: u16, sample_rate: u32, values: &[i16]) -> (r: Result<Vec<u8>, String>)
    requires
        encodable(channels, sample_rate, values@.len()),
    ensures
        values@.len() % (channels as nat) == 0 ==> r is Ok && r->Ok_0@ == wav_file(
            channels,
            sample_rate,
            values@,
        ),
        values@.len() % (channels as nat) != 0 ==> r is Err && r->Err_0@ == incomplete_frame(),
{
    let mut file: Vec<u8> = Vec::new();
    match open(&mut file, channels, sample_rate, BITS_PER_SAMPLE) {
        Err(error) => {
            return Err(join("创建 WAV 失败: ", error.as_str()));
        },
        Ok(mut sink) => {
            let mut i: usize = 0;
            while i < values.len()
                invariant
                    i <= values@.len(),
                    encodable(channels, sample_rate, values@.len()),
                    format(sink) == (channels, sample_rate),
                    written(sink) == values@.take(i as int),
                    destination(sink) == after_borrow(file)@,
                decreases values@.len() - i,
            {
                match write_sample(&mut sink, values[i]) {
                    Ok(()) => {},
                    Err(error) => {
                        return Err(join("写入 WAV 失败: ", error.as_str()));
                    },
                }
                i = i + 1;
                assert(written(sink) =~= values@.take(i as int));
            }
            assert(values@.take(i as int) =~= values@);
            match finalize(sink) {
                Ok(()) => {},
                Err(error) => {
                    return Err(join("完成 WAV 失败: ", error.as_str()));
                },
            }
        },
    }
    Ok(file)
}

/// The number that four bytes of a file stand for, the low one first.
pub open spec fn number_at(file: Seq<u8>, at: int) -> int {
    file[at] + 0x100 * file[at + 1] + 0x1_0000 * file[at + 2] + 0x100_0000 * file[at + 3]
}

/// A file says how long it is, with how many channels and at what rate its samples are to be
/// played, how many bytes that takes, and how many bytes of samples there are; and then it holds
/// just these samples, each in its place.
pub proof fn files_say_what_they_hold(channels: u16, sample_rate: u32, values: Seq<i16>, i: int)
    requires
        encodable(channels, sample_rate, values.len()),
    ensures
        ({
            let file = wav_file(channels, sample_rate, values);
            let start: int = if channels <= 2 {
                44
            } else {
                68
            };
            &&& file.len() == start + 2 * values.len()
            &&& number_at(file, 4) == file.len() - 8
            &&& file[22] + 256 * file[23] == channels
            &&& number_at(file, 24) == sample_rate
            &&& number_at(file, 28) == sample_rate * 2 * channels
            &&& file[32] + 256 * file[33] == (2 * channels) % 65536
            &&& file[34] + 256 * file[35] == 16
            &&& number_at(file, start - 4) == 2 * values.len()
            &&& 0 <= i < values.len() ==> file[start + 2 * i] + 256 * file[start + 2 * i + 1] == (
            if values[i] < 0 {
                values[i] + 65536
            } else {
                values[i] as int
            })
        }),
{
    let file = wav_file(channels, sample_rate, values);
    let head = header(channels, sample_rate, values.len());
    let count = values.len();
    let format = format_chunk(channels, sample_rate);
    let common = common_format(channels, sample_rate);
    lemma_common(channels, sample_rate);
    lemma_format(channels, sample_rate);
    lemma_header(channels, sample_rate, count);
    lemma_sample(head, values, i);
    lemma_fields(
        file,
        head,
        format,
        common,
        channels as int,
        sample_rate as int,
        sample_rate * 2 * channels,
        (2 * channels) % 65536,
        (format.len() + 16 + 2 * count) as int,
        (2 * count) as int,
    );
}

/// Where a sample lies in the bytes that follow a header.
proof fn lemma_sample(head: Seq<u8>, values: Seq<i16>, i: int)
    ensures
        ({
            let file = head + pcm_bytes(values);
            let start = head.len() as int;
            &&& file.len() == start + 2 * values.len()
            &&& file.take(start) == head
            &&& 0 <= i < values.len() ==> file[start + 2 * i] + 256 * file[start + 2 * i + 1] == (
            if values[i] < 0 {
                values[i] + 65536
            } else {
                values[i] as int
            })
        }),
{
    let file = head + pcm_bytes(values);
    assert(file.take(head.len() as int) =~= head);
    if 0 <= i < values.len() {
        bytes_hold_the_values(values, i);
    }
}

/// The numbers in a file, by the parts that it is made of.
proof fn lemma_fields(
    file: Seq<u8>,
    head: Seq<u8>,
    format: Seq<u8>,
    common: Seq<u8>,
    channels: int,
    rate: int,
    bytes_per_second: int,
    frame: int,
    rest: int,
    data: int,
)
    requires
        0 <= channels < 65536,
        0 <= rate <= u32::MAX,
        0 <= bytes_per_second <= u32::MAX,
        0 <= frame < 65536,
        0 <= rest <= u32::MAX,
        0 <= data <= u32::MAX,
        common.len() == 14,
        common.subrange(0, 2) == le16(channels),
        common.subrange(2, 6) == le32(rate),
        common.subrange(6, 10) == le32(bytes_per_second),
        common.subrange(10, 12) == le16(frame),
        common.subrange(12, 14) == le16(16),
        format.len() >= 20,
        format.subrange(6, 20) == common,
        head.len() == format.len() + 24,
        head.subrange(4, 8) == le32(rest),
        head.subrange(16, (16 + format.len()) as int) == format,
        head.subrange(head.len() - 4, head.len() as int) == le32(data),
        file.len() >= head.len(),
        file.take(head.len() as int) == head,
    ensures
        number_at(file, 4) == rest,
        file[22] + 256 * file[23] == channels,
        number_at(file, 24) == rate,
        number_at(file, 28) == bytes_per_second,
        file[32] + 256 * file[33] == frame,
        file[34] + 256 * file[35] == 16,
        number_at(file, head.len() - 4) == data,
{
    let last = head.len() - 4;
    assert(file.subrange(4, 8) =~= head.subrange(4, 8));
    assert(head.subrange(22, 36) =~= format.subrange(6, 20));
    assert(file.subrange(22, 36) =~= common);
    assert(file.subrange(22, 24) =~= common.subrange(0, 2));
    assert(file.subrange(24, 28) =~= common.subrange(2, 6));
    assert(file.subrange(28, 32) =~= common.subrange(6, 10));
    assert(file.subrange(32, 34) =~= common.subrange(10, 12));
    assert(file.subrange(34, 36) =~= common.subrange(12, 14));
    assert(file.subrange(last, last + 4) =~= head.subrange(last, head.len() as int));
    lemma_number(file, 4, rest);
    lemma_number(file, 24, rate);
    lemma_number(file, 28, bytes_per_second);
    lemma_number(file, last, data);
    lemma_small_number(file, 22, channels);
    lemma_small_number(file, 32, frame);
    lemma_small_number(file, 34, 16);
}

proof fn lemma_number(file: Seq<u8>, at: int, x: int)
    requires
        0 <= x <= u32::MAX,
        0 <= at && at + 4 <= file.len(),
        file.subrange(at, at + 4) == le32(x),
    ensures
        number_at(file, at) == x,
{
    let part = file.subrange(at, at + 4);
    assert(part[0] == file[at] && part[1] == file[at + 1] && part[2] == file[at + 2] && part[3]
        == file[at + 3]);
    assert(le32(x)[0] == le16(x % 65536)[0] && le32(x)[1] == le16(x % 65536)[1]);
    assert(le32(x)[2] == le16(x / 65536)[0] && le32(x)[3] == le16(x / 65536)[1]);
}

proof fn lemma_small_number(file: Seq<u8>, at: int, x: int)
    requires
        0 <= x < 65536,
        0 <= at && at + 2 <= file.len(),
        file.subrange(at, at + 2) == le16(x),
    ensures
        file[at] + 256 * file[at + 1] == x,
{
    let part = file.subrange(at, at + 2);
    assert(part[0] == file[at] && part[1] == file[at + 1]);
}

proof fn lemma_common(channels: u16, sample_rate: u32)
    ensures
        ({
            let common = common_format(channels, sample_rate);
            &&& common.len() == 14
            &&& common.subrange(0, 2) == le16(channels as int)
            &&& common.subrange(2, 6) == le32(sample_rate as int)
            &&& common.subrange(6, 10) == le32(sample_rate * 2 * channels)
            &&& common.subrange(10, 12) == le16((2 * channels) % 65536)
            &&& common.subrange(12, 14) == le16(16)
        }),
{
    let common = common_format(channels, sample_rate);
    assert(common.subrange(0, 2) =~= le16(channels as int));
    assert(common.subrange(2, 6) =~= le32(sample_rate as int));
    assert(common.subrange(6, 10) =~= le32(sample_rate * 2 * channels));
    assert(common.subrange(10, 12) =~= le16((2 * channels) % 65536));
    assert(common.subrange(12, 14) =~= le16(16));
}

proof fn lemma_format(channels: u16, sample_rate: u32)
    ensures
        format_chunk(channels, sample_rate).len() == if channels <= 2 {
            20int
        } else {
            44
        },
        format_chunk(channels, sample_rate).subrange(6, 20) == common_format(channels, sample_rate),
{
    lemma_common(channels, sample_rate);
    assert(format_chunk(channels, sample_rate).subrange(6, 20) =~= common_format(
        channels,
        sample_rate,
    ));
}

proof fn lemma_header(channels: u16, sample_rate: u32, count: nat)
    ensures
        ({
            let head = header(channels, sample_rate, count);
            let format = format_chunk(channels, sample_rate);
            &&& head.len() == format.len() + 24
            &&& head.subrange(4, 8) == le32((format.len() + 16 + 2 * count) as int)
            &&& head.subrange(16, (16 + format.len()) as int) == format
            &&& head.subrange(head.len() - 4, head.len() as int) == le32((2 * count) as int)
        }),
{
    let head = header(channels, sample_rate, count);
    let format = format_chunk(channels, sample_rate);
    assert(head.subrange(4, 8) =~= le32((format.len() + 16 + 2 * count) as int));
    assert(head.subrange(16, (16 + format.len()) as int) =~= format);
    assert(head.subrange(head.len() - 4, head.len() as int) =~= le32((2 * count) as int));
}

} // verus!
