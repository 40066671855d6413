//! A sliding window over a stream of audio samples.
//!
//! Samples are numbered from the start of the recording.  The buffer keeps the most recent ones,
//! at most [`MAX_BUFFER_SECONDS`] worth of them, and any number of readers follow the stream with
//! an offset of their own.

use vstd::prelude::*;

verus! {

/// Length of the window in seconds.
pub const MAX_BUFFER_SECONDS: usize = 4;

/// The part of a sample stream that is kept: the samples numbered from `start` on.
#[verifier::ext_equal]
pub struct Window<T> {
    pub start: nat,
    pub samples: Seq<T>,
}

/// The last `capacity` samples; all of them when there are no more than that, or when the
/// capacity is zero, which means that there is no limit.
pub open spec fn retained<T>(samples: Seq<T>, capacity: nat) -> Seq<T> {
    if capacity > 0 && samples.len() > capacity {
        samples.skip(samples.len() - capacity)
    } else {
        samples
    }
}

impl<T> Window<T> {
    /// Number of the sample that comes next.
    pub open spec fn next(self) -> nat {
        self.start + self.samples.len()
    }

    /// The window after more samples have arrived.
    pub open spec fn push(self, new: Seq<T>, capacity: nat) -> Window<T> {
        let kept = retained(self.samples + new, capacity);
        Window { start: (self.next() + new.len() - kept.len()) as nat, samples: kept }
    }

    /// The kept sample number nearest to `offset`.
    pub open spec fn clamp(self, offset: nat) -> nat {
        if offset < self.start {
            self.start
        } else if offset > self.next() {
            self.next()
        } else {
            offset
        }
    }

    /// The kept samples numbered `offset` and up.
    pub open spec fn since(self, offset: nat) -> Seq<T> {
        self.samples.skip(self.clamp(offset) - self.start)
    }

    /// The window shows the end of the stream `history`.
    pub open spec fn shows(self, history: Seq<T>) -> bool {
        &&& self.start <= history.len()
        &&& self.samples == history.skip(self.start as int)
    }
}

/// Number of samples in the longest window at this rate and channel count; the largest index
/// when it does not fit.
pub open spec fn window_capacity(sample_rate: nat, channels: nat) -> nat {
    let exact = sample_rate * channels * (MAX_BUFFER_SECONDS as nat);
    if exact > usize::MAX {
        usize::MAX as nat
    } else {
        exact
    }
}

/// A sliding window over a stream of samples.
#[derive(Debug)]
pub struct SampleBuffer<T> {
    pub samples: Vec<T>,
    pub start_index: usize,
    pub next_index: usize,
}

impl<T> SampleBuffer<T> {
    /// The indices agree with the number of samples held.
    pub open spec fn wf(&self) -> bool {
        self.start_index + self.samples@.len() == self.next_index
    }
}

impl<T> View for SampleBuffer<T> {
    type V = Window<T>;

    open spec fn view(&self) -> Window<T> {
        Window { start: self.start_index as nat, samples: self.samples@ }
    }
}

impl<T> Default for SampleBuffer<T> {
    /// An empty window at the start of a stream.
    fn default() -> (r: Self)
        ensures
            r.wf(),
            r@ == (Window { start: 0, samples: Seq::<T>::empty() }),
    {
        SampleBuffer { samples: Vec::new(), start_index: 0, next_index: 0 }
    }
}

/// Multiplies, with the largest index in place of a product that does not fit.
fn saturating_product(a: usize, b: usize) -> (r: usize)
    ensures
        r == if a * b > usize::MAX {
            usize::MAX as int
        } else {
            a * b
        },
{
    match a.checked_mul(b) {
        Some(product) => product,
        None => usize::MAX,
    }
}

/// Computes the capacity of the window.
pub fn max_samples(sample_rate: usize, channels: usize) -> (r: usize)
    ensures
        r == window_capacity(sample_rate as nat, channels as nat),
{
    let per_second: usize = saturating_product(sample_rate, channels);
    saturating_product(per_second, MAX_BUFFER_SECONDS)
}

impl<T: Copy> SampleBuffer<T> {
    /// Appends samples and drops the oldest ones that no longer fit into the window.
    pub fn push_samples(&mut self, samples: &[T], sample_rate: usize, channels: usize)
        requires
            old(self).wf(),
            old(self).next_index + samples@.len() <= usize::MAX,
        ensures
            final(self).wf(),
            final(self)@ == old(self)@.push(
                samples@,
                window_capacity(sample_rate as nat, channels as nat),
            ),
    {
        let ghost before = self.samples@;
        let mut i: usize = 0;
        while i < samples.len()
            invariant
                i <= samples@.len(),
                self.samples@ == before + samples@.take(i as int),
                self.start_index == old(self).start_index,
                self.next_index == old(self).next_index,
            decreases samples@.len() - i,
        {
            self.samples.push(samples[i]);
            i = i + 1;
            assert(self.samples@ =~= before + samples@.take(i as int));
        }
        assert(samples@.take(i as int) =~= samples@);
        self.next_index = self.next_index + samples.len();

        let capacity: usize = max_samples(sample_rate, channels);
        if capacity > 0 && self.samples.len() > capacity {
            let drain_count: usize = self.samples.len() - capacity;
            self.samples = self.samples.split_off(drain_count);
            self.start_index = self.start_index + drain_count;
        }
        assert(self@ =~= old(self)@.push(
            samples@,
            window_capacity(sample_rate as nat, channels as nat),
        ));
    }

    /// Returns the samples from `offset` on and moves the offset to the end of the stream.
    ///
    /// An offset that lies outside the window is moved to its nearer end first.
    pub fn samples_since(&self, offset: &mut usize) -> (r: Vec<T>)
        requires
            self.wf(),
        ensures
            r@ == self@.since(*old(offset) as nat),
            *final(offset) == self@.next(),
    {
        let mut from: usize = *offset;
        if from < self.start_index {
            from = self.start_index;
        }
        if from > self.next_index {
            from = self.next_index;
        }
        let relative: usize = from - self.start_index;
        let mut r: Vec<T> = Vec::new();
        let mut i: usize = relative;
        while i < self.samples.len()
            invariant
                relative <= i <= self.samples@.len(),
                r@ == self.samples@.subrange(relative as int, i as int),
            decreases self.samples@.len() - i,
        {
            r.push(self.samples[i]);
            i = i + 1;
            assert(r@ =~= self.samples@.subrange(relative as int, i as int));
        }
        *offset = self.next_index;
        assert(r@ =~= self@.since(*old(offset) as nat));
        r
    }
}

/// Pushing keeps the window at the end of the stream.
pub proof fn push_follows_history<T>(w: Window<T>, history: Seq<T>, new: Seq<T>, capacity: nat)
    requires
        w.shows(history),
    ensures
        w.push(new, capacity).shows(history + new),
        w.push(new, capacity).next() == (history + new).len(),
{
    let pushed = w.push(new, capacity);
    assert(pushed.samples =~= (history + new).skip(pushed.start as int));
}

/// The window never holds more than its capacity, and it gives up a sample only when it is full.
pub proof fn push_keeps_capacity<T>(w: Window<T>, new: Seq<T>, capacity: nat)
    requires
        capacity > 0,
    ensures
        w.push(new, capacity).samples.len() <= capacity,
        w.push(new, capacity).start > w.start ==> w.push(new, capacity).samples.len() == capacity,
{
}

/// A reader that is up to date gets exactly the samples that arrive next, or the most recent
/// ones among them when more arrive than the window holds.
pub proof fn up_to_date_reader_gets_what_arrives<T>(w: Window<T>, new: Seq<T>, capacity: nat)
    ensures
        w.push(new, capacity).since(w.next()) == retained(new, capacity),
{
    assert(w.push(new, capacity).since(w.next()) =~= retained(new, capacity));
}

/// A reader that has just read finds nothing more.
pub proof fn nothing_is_read_twice<T>(w: Window<T>)
    ensures
        w.since(w.next()) == Seq::<T>::empty(),
{
    assert(w.since(w.next()) =~= Seq::<T>::empty());
}

/// A reader whose position has been dropped gets the whole window.
pub proof fn stale_reader_gets_whole_window<T>(w: Window<T>, offset: nat)
    requires
        offset <= w.start,
    ensures
        w.since(offset) == w.samples,
{
    assert(w.since(offset) =~= w.samples);
}

/// While nothing that a reader has not seen is dropped, two reads with a push in between hand
/// out the same samples as one read after it.
pub proof fn reads_join<T>(w: Window<T>, new: Seq<T>, capacity: nat, offset: nat)
    requires
        w.clamp(offset) >= w.push(new, capacity).start,
    ensures
        w.push(new, capacity).since(w.clamp(offset)) == w.since(offset) + w.push(
            new,
            capacity,
        ).since(w.next()),
{
    assert(w.push(new, capacity).since(w.clamp(offset)) =~= w.since(offset) + w.push(
        new,
        capacity,
    ).since(w.next()));
}

/// Pushing drops samples from the front only, as many as the numbers move on, and none unless what
/// is left fills the window; a window without a limit keeps everything.
pub proof fn windows_slide<T>(w: Window<T>, new: Seq<T>, capacity: nat)
    ensures
        ({
            let pushed = w.push(new, capacity);
            let dropped = pushed.start - w.start;
            &&& 0 <= dropped <= w.samples.len() + new.len()
            &&& pushed.samples == (w.samples + new).skip(dropped)
            &&& capacity > 0 ==> pushed.samples.len() <= capacity
            &&& dropped > 0 ==> capacity > 0 && pushed.samples.len() == capacity
        }),
{
    let pushed = w.push(new, capacity);
    assert(pushed.samples =~= (w.samples + new).skip(pushed.start - w.start));
}

/// A reader gets every kept sample whose number is not below its offset, and no other.
pub proof fn reads_begin_at_the_offset<T>(w: Window<T>, offset: nat, number: nat)
    requires
        w.start <= number < w.start + w.samples.len(),
    ensures
        ({
            let from = if offset > w.start {
                offset
            } else {
                w.start
            };
            let read = w.since(offset);
            &&& read.len() == if from < w.start + w.samples.len() {
                w.start + w.samples.len() - from
            } else {
                0
            }
            &&& offset <= number ==> read[number - from] == w.samples[number - w.start]
            &&& w.next() == w.start + w.samples.len()
        }),
{
}

/// The window holds four seconds, or as many samples as can be numbered.
pub proof fn windows_hold_four_seconds(sample_rate: nat, channels: nat)
    ensures
        sample_rate * channels * 4 <= usize::MAX ==> window_capacity(sample_rate, channels)
            == sample_rate * channels * 4,
        sample_rate * channels * 4 > usize::MAX ==> window_capacity(sample_rate, channels)
            == usize::MAX,
{
}

/// A buffer shows the samples that it holds, and its indices number them.
pub proof fn buffers_show_what_they_hold<T>(buffer: SampleBuffer<T>)
    ensures
        buffer@.samples == buffer.samples@,
        buffer@.start == buffer.start_index,
        buffer.wf() <==> buffer@.next() == buffer.next_index,
{
}

} // verus!
