//! Recordings.

use vstd::prelude::*;

use crate::pcm::{
    bits_of_signed, bits_of_unsigned, bytes_hold_the_values, pcm_bytes, pcm_value, pcm_values,
    quantize_all, sample_from_i16, sample_from_u16, samples_have_their_own_values, to_bytes,
};
use crate::sample_buffer::{
    stale_reader_gets_whole_window, window_capacity, windows_slide, SampleBuffer, Window,
};
use crate::wav::{
    encodable, encode, files_say_what_they_hold, header, incomplete_frame, samples_end_the_file,
    wav_file,
};

verus! {

/// Sample rate for which the window is sized on Android.
pub const ANDROID_SAMPLE_RATE: usize = 48_000;

/// Samples as the audio system delivers them, the channels interleaved.
pub enum Input<'a> {
    /// Single-precision bit patterns.
    F32(&'a [u32]),
    I16(&'a [i16]),
    U16(&'a [u16]),
}

impl<'a> Input<'a> {
    /// The samples as single-precision bit patterns.
    pub open spec fn bits(self) -> Seq<u32> {
        match self {
            Input::F32(data) => data@,
            Input::I16(data) => Seq::new(data@.len(), |i: int| bits_of_signed(data@[i]) as u32),
            Input::U16(data) => Seq::new(data@.len(), |i: int| bits_of_unsigned(data@[i]) as u32),
        }
    }
}

/// A recording in progress: the latest samples, as single-precision bit patterns with the
/// channels interleaved, and their format.
#[derive(Debug)]
pub struct Recorder {
    pub samples: SampleBuffer<u32>,
    pub sample_rate: u32,
    pub channels: u16,
}

impl Recorder {
    /// The sample buffer is consistent.
    pub open spec fn wf(&self) -> bool {
        self.samples.wf()
    }

    /// Starts with an empty recording.
    pub fn new(sample_rate: u32, channels: u16) -> (r: Recorder)
        ensures
            r.wf(),
            r.samples@ == (Window { start: 0, samples: Seq::<u32>::empty() }),
            r.sample_rate == sample_rate,
            r.channels == channels,
    {
        Recorder { samples: SampleBuffer::default(), sample_rate, channels }
    }

    /// Takes in samples; the oldest ones are dropped when the recording gets too long for the
    /// window of a stream with this rate and number of channels.
    pub fn push_input(&mut self, input: Input, sample_rate: usize, channels: usize)
        requires
            old(self).wf(),
            old(self).samples.next_index + input.bits().len() <= usize::MAX,
        ensures
            final(self).wf(),
            final(self).samples@ == old(self).samples@.push(
                input.bits(),
                window_capacity(sample_rate as nat, channels as nat),
            ),
            final(self).sample_rate == old(self).sample_rate,
            final(self).channels == old(self).channels,
    {
        match input {
            Input::F32(data) => {
                self.samples.push_samples(data, sample_rate, channels);
            },
            Input::I16(data) => {
                let mut bits: Vec<u32> = Vec::with_capacity(data.len());
                let mut i: usize = 0;
                while i < data.len()
                    invariant
                        i <= data@.len(),
                        input == Input::I16(data),
                        bits@ == input.bits().take(i as int),
                    decreases data@.len() - i,
                {
                    bits.push(sample_from_i16(data[i]));
                    i = i + 1;
                    assert(bits@ =~= input.bits().take(i as int));
                }
                assert(bits@ =~= input.bits());
                self.samples.push_samples(bits.as_slice(), sample_rate, channels);
            },
            Input::U16(data) => {
                let mut bits: Vec<u32> = Vec::with_capacity(data.len());
                let mut i: usize = 0;
                while i < data.len()
                    invariant
                        i <= data@.len(),
                        input == Input::U16(data),
                        bits@ == input.bits().take(i as int),
                    decreases data@.len() - i,
                {
                    bits.push(sample_from_u16(data[i]));
                    i = i + 1;
                    assert(bits@ =~= input.bits().take(i as int));
                }
                assert(bits@ =~= input.bits());
                self.samples.push_samples(bits.as_slice(), sample_rate, channels);
            },
        }
    }

    /// Ends the recording and encodes what it holds as a WAVE file.
    ///
    /// There is an error when nothing was recorded, and when the last frame is incomplete.
    pub fn into_wav_bytes(self) -> (r: Result<Vec<u8>, String>)
        requires
            self.samples@.samples.len() > 0 ==> encodable(
                self.channels,
                self.sample_rate,
                self.samples@.samples.len(),
            ),
        ensures
            ({
                let count = self.samples@.samples.len();
                if count == 0 {
                    r is Err && r->Err_0@ == "没有录到音频"@
                } else if count % (self.channels as nat) != 0 {
                    r is Err && r->Err_0@ == incomplete_frame()
                } else {
                    r is Ok && r->Ok_0@ == wav_file(
                        self.channels,
                        self.sample_rate,
                        pcm_values(self.samples@.samples),
                    )
                }
            }),
    {
        if self.samples.samples.is_empty() {
            return Err("没有录到音频".to_owned());
        }
        let values: Vec<i16> = quantize_all(self.samples.samples.as_slice());
        encode(self.channels, self.sample_rate, values.as_slice())
    }

    /// Returns the samples recorded after `offset` as 16-bit PCM bytes, without taking them out of
    /// the recording, and moves the offset to the end.
    pub fn samples_since(&self, offset: &mut usize) -> (r: Vec<u8>)
        requires
            self.wf(),
        ensures
            r@ == pcm_bytes(pcm_values(self.samples@.since(*old(offset) as nat))),
            *final(offset) == self.samples@.next(),
    {
        let samples: Vec<u32> = self.samples.samples_since(offset);
        let values: Vec<i16> = quantize_all(samples.as_slice());
        to_bytes(values.as_slice())
    }

    /// Samples per second and channel.
    pub fn sample_rate(&self) -> (r: u32)
        ensures
            r == self.sample_rate,
    {
        self.sample_rate
    }

    /// Number of channels.
    pub fn channels(&self) -> (r: u16)
        ensures
            r == self.channels,
    {
        self.channels
    }
}

/// The audio in the WAVE file of a recording is what a reader that starts with the recording gets
/// from it.
pub proof fn file_holds_what_readers_get(w: Window<u32>, sample_rate: u32, channels: u16)
    ensures
        ({
            let values = pcm_values(w.samples);
            wav_file(channels, sample_rate, values).skip(
                header(channels, sample_rate, values.len()).len() as int,
            ) == pcm_bytes(pcm_values(w.since(0)))
        }),
{
    stale_reader_gets_whole_window(w, 0);
    samples_end_the_file(channels, sample_rate, pcm_values(w.samples));
}

/// Every sample that is delivered becomes one sample of the recording: a single-precision one as it
/// is, an integer one by its own value alone.
pub proof fn every_input_sample_counts(
    floats: &[u32],
    signed: &[i16],
    unsigned: &[u16],
    i: int,
)
    ensures
        Input::F32(floats).bits() == floats@,
        Input::I16(signed).bits().len() == signed@.len(),
        Input::U16(unsigned).bits().len() == unsigned@.len(),
        0 <= i < signed@.len() ==> Input::I16(signed).bits()[i] == bits_of_signed(signed@[i]) as u32,
        0 <= i < unsigned@.len() ==> Input::U16(unsigned).bits()[i] == bits_of_unsigned(unsigned@[i]) as u32,
{
}

/// On Android a recording holds four seconds at 48 kHz on one channel.
pub proof fn android_recordings_hold_four_seconds()
    ensures
        window_capacity(ANDROID_SAMPLE_RATE as nat, 1) == 192_000,
{
}

/// From the microphone to the file: as long as a recording fits into its window, the file has one
/// value for every sample that came in, in the same order, and each is the value of its own sample.
/// A reader that starts with the recording gets the same values.
pub proof fn files_hold_every_sample(
    bits: Seq<u32>,
    sample_rate: u32,
    channels: u16,
    capacity: nat,
    i: int,
)
    requires
        encodable(channels, sample_rate, bits.len()),
        bits.len() <= capacity,
        0 <= i < bits.len(),
    ensures
        ({
            let empty = Window { start: 0, samples: Seq::<u32>::empty() };
            let recorded = empty.push(bits, capacity);
            let file = wav_file(channels, sample_rate, pcm_values(recorded.samples));
            let read = pcm_bytes(pcm_values(recorded.since(0)));
            let start: int = if channels <= 2 {
                44
            } else {
                68
            };
            let word = if pcm_value(bits[i]) < 0 {
                pcm_value(bits[i]) + 65536
            } else {
                pcm_value(bits[i])
            };
            &&& file.len() == start + 2 * bits.len()
            &&& read.len() == 2 * bits.len()
            &&& file[start + 2 * i] + 256 * file[start + 2 * i + 1] == word
            &&& read[2 * i] + 256 * read[2 * i + 1] == word
        }),
{
    let empty = Window { start: 0, samples: Seq::<u32>::empty() };
    let recorded = empty.push(bits, capacity);
    windows_slide(empty, bits, capacity);
    assert(recorded.samples =~= bits);
    stale_reader_gets_whole_window(recorded, 0);
    let values = pcm_values(bits);
    samples_have_their_own_values(bits, i);
    bytes_hold_the_values(values, i);
    files_say_what_they_hold(channels, sample_rate, values, i);
}

} // verus!
