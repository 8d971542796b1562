//! A single sine tone whose key is raised or lowered by two buttons.
use crate::pipeline::{BufferState, DoubleBuffer};
use crate::synth::{fill, key_to_period, period_of, tone, Waveform, MAX_VOLUME};
use vstd::prelude::*;

verus! {

/// Samples per second.
pub const TONE_SAMPLE_RATE: u32 = 44000;

/// Samples per buffer.
pub const TONE_BUFFER_SIZE: usize = 64;

/// The counter top that makes one pulse period last one sample, with the
/// counter clock divided by four.
pub const TONE_COUNTER_TOP: u16 = 95;

/// The key a generator starts on.
pub const INITIAL_NOTE: u8 = 60;

/// The volume a generator starts with.
pub const INITIAL_VOLUME: u8 = 20;

/// The key sounded when playback starts (A above middle C).
pub const START_NOTE: u8 = 69;

/// Period used for `note`: never zero.
pub open spec fn tone_period(note: u8) -> int {
    let p = period_of(TONE_SAMPLE_RATE as nat, note as nat);
    if p == 0 {
        1
    } else {
        p as int
    }
}

/// A sine tone generator and its two sample buffers.
pub struct NoteGen {
    note: u8,
    volume: u8,
    offset: usize,
    buffers: DoubleBuffer,
}

impl NoteGen {
    /// The sounding key.
    pub closed spec fn key(&self) -> u8 {
        self.note
    }

    /// The volume, out of `MAX_VOLUME`.
    pub closed spec fn level(&self) -> u8 {
        self.volume
    }

    /// Sample position reached in the wave.
    pub closed spec fn cursor(&self) -> int {
        self.offset as int
    }

    /// The two sample buffers.
    pub closed spec fn output(&self) -> DoubleBuffer {
        self.buffers
    }

    /// The generator's invariant.
    pub closed spec fn wf(&self) -> bool {
        &&& self.volume <= MAX_VOLUME
        &&& self.buffers.wf(TONE_BUFFER_SIZE as nat)
    }

    /// A generator on `INITIAL_NOTE` at `INITIAL_VOLUME`, at the start of
    /// the wave, with both buffers silent and owned by software.
    pub fn new() -> (r: NoteGen)
        ensures
            r.wf(),
            r.key() == INITIAL_NOTE,
            r.level() == INITIAL_VOLUME,
            r.cursor() == 0,
            r.output().idle(),
    {
        NoteGen {
            note: INITIAL_NOTE,
            volume: INITIAL_VOLUME,
            offset: 0,
            buffers: DoubleBuffer::new(TONE_BUFFER_SIZE),
        }
    }

    /// The sounding key.
    pub fn note(&self) -> (r: u8)
        ensures
            r == self.key(),
    {
        self.note
    }

    /// The period of the sounding key, in samples.
    pub fn period(&self) -> (r: usize)
        ensures
            r == period_of(TONE_SAMPLE_RATE as nat, self.key() as nat),
    {
        key_to_period(TONE_SAMPLE_RATE, self.note)
    }

    /// Refills buffer `idx`, which software owns, with the next stretch of
    /// the sine tone, continuing the wave where the previous buffer ended.
    pub fn fill_buffer(&mut self, idx: usize)
        requires
            old(self).wf(),
            idx < 2,
            old(self).output().state(idx as int) == BufferState::Filling,
        ensures
            final(self).wf(),
            final(self).output().contents(idx as int) == tone(
                Waveform::Sine,
                old(self).cursor(),
                tone_period(old(self).key()),
                old(self).level() as int,
                TONE_COUNTER_TOP as int,
                TONE_BUFFER_SIZE as nat,
            ),
            final(self).cursor() == (old(self).cursor() + TONE_BUFFER_SIZE) % tone_period(
                old(self).key(),
            ),
            final(self).output().contents(1 - idx) == old(self).output().contents(1 - idx),
            final(self).output().state(0) == old(self).output().state(0),
            final(self).output().state(1) == old(self).output().state(1),
            final(self).key() == old(self).key(),
            final(self).level() == old(self).level(),
    {
        let p = self.period();
        let period = if p == 0 {
            1
        } else {
            p
        };
        let offset = self.offset;
        let volume = self.volume;
        let buf = self.buffers.buffer_mut(idx);
        let next = fill(buf, Waveform::Sine, offset, period, volume, TONE_COUNTER_TOP);
        self.offset = next;
    }

    /// Sounds `note` from the start of its wave.
    pub fn set_note(&mut self, note: u8)
        requires
            old(self).wf(),
        ensures
            final(self).wf(),
            final(self).key() == note,
            final(self).cursor() == 0,
            final(self).level() == old(self).level(),
            final(self).output() == old(self).output(),
    {
        self.note = note;
        self.offset = 0;
    }

    /// Raises the key by one semitone, up to 255.
    pub fn raise_note(&mut self)
        requires
            old(self).wf(),
        ensures
            final(self).wf(),
            final(self).key() == if old(self).key() < 255 {
                (old(self).key() + 1) as u8
            } else {
                255
            },
            final(self).cursor() == 0,
            final(self).level() == old(self).level(),
            final(self).output() == old(self).output(),
    {
        let note = if self.note < 255 {
            self.note + 1
        } else {
            255
        };
        self.set_note(note);
    }

    /// Lowers the key by one semitone, down to 0.
    pub fn lower_note(&mut self)
        requires
            old(self).wf(),
        ensures
            final(self).wf(),
            final(self).key() == if old(self).key() > 0 {
                (old(self).key() - 1) as u8
            } else {
                0
            },
            final(self).cursor() == 0,
            final(self).level() == old(self).level(),
            final(self).output() == old(self).output(),
    {
        let note = if self.note > 0 {
            self.note - 1
        } else {
            0
        };
        self.set_note(note);
    }

    /// Begins playback: fills both buffers and hands buffer 0 to the pulse
    /// generator. Returns the buffer whose streaming must be started.
    pub fn start_sequence(&mut self) -> (r: usize)
        requires
            old(self).wf(),
            old(self).output().idle(),
        ensures
            r == 0,
            final(self).wf(),
            final(self).output().contents(0) == tone(
                Waveform::Sine,
                old(self).cursor(),
                tone_period(old(self).key()),
                old(self).level() as int,
                TONE_COUNTER_TOP as int,
                TONE_BUFFER_SIZE as nat,
            ),
            final(self).output().contents(1) == tone(
                Waveform::Sine,
                (old(self).cursor() + TONE_BUFFER_SIZE) % tone_period(old(self).key()),
                tone_period(old(self).key()),
                old(self).level() as int,
                TONE_COUNTER_TOP as int,
                TONE_BUFFER_SIZE as nat,
            ),
            final(self).output().state(0) == BufferState::Streaming,
            final(self).output().state(1) == BufferState::Filling,
            final(self).key() == old(self).key(),
    {
        self.fill_buffer(0);
        self.fill_buffer(1);
        self.buffers.start(0);
        0
    }

    /// The pulse generator has finished streaming buffer `finished`: the
    /// other buffer is handed to it, and `finished` goes back to software.
    /// Returns the buffer whose streaming must be started now; the caller
    /// starts it first and refills `finished` with `fill_buffer` after.
    pub fn sequence_end(&mut self, finished: usize) -> (next: usize)
        requires
            old(self).wf(),
            finished < 2,
            old(self).output().state(finished as int) == BufferState::Streaming,
        ensures
            final(self).wf(),
            next == 1 - finished,
            final(self).output().state(next as int) == BufferState::Streaming,
            final(self).output().state(finished as int) == BufferState::Filling,
            final(self).output().contents(0) == old(self).output().contents(0),
            final(self).output().contents(1) == old(self).output().contents(1),
            final(self).key() == old(self).key(),
            final(self).level() == old(self).level(),
            final(self).cursor() == old(self).cursor(),
    {
        self.buffers.sequence_end(finished)
    }

    /// The two sample buffers.
    pub fn buffers(&self) -> (r: &DoubleBuffer)
        ensures
            *r == self.output(),
    {
        &self.buffers
    }
}

} // verus!
