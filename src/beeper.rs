//! Playback of 8-bit unsigned PCM data at its own sample rate, each sample
//! repeated over several pulse periods.
use crate::pipeline::{BufferState, DoubleBuffer};
use vstd::prelude::*;

verus! {

/// Samples per second of the PCM data, and of playback.
pub const DATA_SAMPLE_RATE: u32 = 2700;

/// Each sample is played `REFRESH + 1` pulse periods long.
pub const REFRESH: u32 = 5;

/// The counter top that makes `REFRESH + 1` pulse periods last one sample:
/// `16777216 / (DATA_SAMPLE_RATE * (REFRESH + 1))`.
pub const PWM_COUNTERTOP: u16 = 1035;

/// Data samples advanced per output sample.
pub const SAMPLE_STRIDE: usize = 1;

/// Samples per buffer.
pub const BUF_LEN: usize = 512;

/// The duty for a PCM sample on a counter that runs up to `top`: the sample
/// taken as a fraction of 255, rounded down.
pub open spec fn pcm_duty(sample: u8, top: u16) -> int {
    sample as int * top as int / 255
}

/// The duty for a PCM sample on a counter that runs up to `top`.
pub fn pcm_duty_of(sample: u8, top: u16) -> (r: u16)
    ensures
        r == pcm_duty(sample, top),
        r <= top,
{
    assert(sample as int * top as int / 255 <= top) by (nonlinear_arith)
        requires
            sample <= 255,
    {
        assert(sample as int * top as int <= 255 * top as int);
    }
    ((sample as u32 * top as u32) / 255) as u16
}

/// Fills `buffer` from `data`, starting at sample `cursor` and stepping
/// `SAMPLE_STRIDE` samples at a time, wrapping round at the end of the
/// data; returns the cursor that the next buffer starts from.
pub fn fill_samples(buffer: &mut [u16], data: &[u8], cursor: usize) -> (r: usize)
    requires
        cursor < data@.len(),
    ensures
        final(buffer)@.len() == old(buffer)@.len(),
        forall|i: int|
            0 <= i < old(buffer)@.len() ==> #[trigger] final(buffer)@[i] == pcm_duty(
                data@[(cursor + i * SAMPLE_STRIDE) % data@.len() as int],
                PWM_COUNTERTOP,
            ),
        r == (cursor + old(buffer)@.len() * SAMPLE_STRIDE) % data@.len() as int,
{
    let n = buffer.len();
    let len = data.len();
    let mut pos: usize = cursor;
    let mut i: usize = 0;
    assert(cursor as int % len as int == cursor as int) by {
        vstd::arithmetic::div_mod::lemma_small_mod(cursor as nat, len as nat);
    }
    while i < n
        invariant
            n == buffer@.len(),
            len == data@.len(),
            len > 0,
            i <= n,
            pos < len,
            pos == (cursor + i * SAMPLE_STRIDE) % len as int,
            forall|k: int|
                0 <= k < i ==> #[trigger] buffer@[k] == pcm_duty(
                    data@[(cursor + k * SAMPLE_STRIDE) % len as int],
                    PWM_COUNTERTOP,
                ),
        decreases n - i,
    {
        buffer[i] = pcm_duty_of(data[pos], PWM_COUNTERTOP);
        proof {
            vstd::arithmetic::div_mod::lemma_add_mod_noop_right(
                SAMPLE_STRIDE as int,
                cursor + i * SAMPLE_STRIDE,
                len as int,
            );
            vstd::arithmetic::div_mod::lemma_mod_bound(
                pos + SAMPLE_STRIDE as int,
                len as int,
            );
        }
        pos = ((pos as u128 + SAMPLE_STRIDE as u128) % len as u128) as usize;
        i = i + 1;
    }
    pos
}

/// A PCM player's cursor into its data and its two sample buffers.
pub struct Beeper {
    cursor: usize,
    buffers: DoubleBuffer,
}

impl Beeper {
    /// The next data sample to play.
    pub closed spec fn position(&self) -> int {
        self.cursor as int
    }

    /// The two sample buffers.
    pub closed spec fn output(&self) -> DoubleBuffer {
        self.buffers
    }

    /// The player's invariant.
    pub closed spec fn wf(&self) -> bool {
        self.buffers.wf(BUF_LEN as nat)
    }

    /// Refills buffer `id`, which software owns, with the next stretch of
    /// `data`.
    pub fn fill_next_buffer(&mut self, id: usize, data: &[u8])
        requires
            old(self).wf(),
            id < 2,
            old(self).output().state(id as int) == BufferState::Filling,
            old(self).position() < data@.len(),
        ensures
            final(self).wf(),
            forall|i: int|
                0 <= i < BUF_LEN ==> #[trigger] final(self).output().contents(id as int)[i]
                    == pcm_duty(
                    data@[(old(self).position() + i * SAMPLE_STRIDE) % data@.len() as int],
                    PWM_COUNTERTOP,
                ),
            final(self).position() == (old(self).position() + BUF_LEN * SAMPLE_STRIDE)
                % data@.len() as int,
            final(self).output().contents(1 - id) == old(self).output().contents(1 - id),
            final(self).output().state(0) == old(self).output().state(0),
            final(self).output().state(1) == old(self).output().state(1),
    {
        let cursor = self.cursor;
        let buf = self.buffers.buffer_mut(id);
        let next = fill_samples(buf, data, cursor);
        self.cursor = next;
    }

    /// The pulse generator has finished streaming buffer `finished`: the
    /// other buffer is handed to it, and `finished` goes back to software.
    /// Returns the buffer whose streaming must be started now; the caller
    /// starts it first and refills `finished` with `fill_next_buffer` after.
    pub fn sequence_end(&mut self, finished: usize) -> (next: usize)
        requires
            old(self).wf(),
            finished < 2,
            old(self).output().state(finished as int) == BufferState::Streaming,
        ensures
            final(self).wf(),
            next == 1 - finished,
            final(self).output().state(next as int) == BufferState::Streaming,
            final(self).output().state(finished as int) == BufferState::Filling,
            final(self).output().contents(0) == old(self).output().contents(0),
            final(self).output().contents(1) == old(self).output().contents(1),
            final(self).position() == old(self).position(),
    {
        self.buffers.sequence_end(finished)
    }

    /// The two sample buffers.
    pub fn buffers(&self) -> (r: &DoubleBuffer)
        ensures
            *r == self.output(),
    {
        &self.buffers
    }

    /// The cursor into the data.
    pub fn cursor(&self) -> (r: usize)
        ensures
            r == self.position(),
    {
        self.cursor
    }
}

/// Begins playback of `data`: fills buffer 0 and then buffer 1 from the
/// start of the data, and hands buffer 0 to the pulse generator, whose
/// streaming must then be started.
pub fn beeper(data: &[u8]) -> (r: Beeper)
    requires
        data@.len() > 0,
    ensures
        r.wf(),
        r.output().state(0) == BufferState::Streaming,
        r.output().state(1) == BufferState::Filling,
        forall|i: int|
            0 <= i < BUF_LEN ==> #[trigger] r.output().contents(0)[i] == pcm_duty(
                data@[(i * SAMPLE_STRIDE) % data@.len() as int],
                PWM_COUNTERTOP,
            ),
        forall|i: int|
            0 <= i < BUF_LEN ==> #[trigger] r.output().contents(1)[i] == pcm_duty(
                data@[((BUF_LEN * SAMPLE_STRIDE) % data@.len() as int + i * SAMPLE_STRIDE)
                    % data@.len() as int],
                PWM_COUNTERTOP,
            ),
        r.position() == ((BUF_LEN * SAMPLE_STRIDE) % data@.len() as int + BUF_LEN * SAMPLE_STRIDE)
            % data@.len() as int,
{
    let mut b = Beeper { cursor: 0, buffers: DoubleBuffer::new(BUF_LEN) };
    b.fill_next_buffer(0, data);
    proof {
        vstd::arithmetic::div_mod::lemma_mod_bound(
            (BUF_LEN * SAMPLE_STRIDE) as int,
            data@.len() as int,
        );
    }
    b.fill_next_buffer(1, data);
    b.buffers.start(0);
    b
}

} // verus!
