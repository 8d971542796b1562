//! The MIDI player: the scheduler drives the voice table on each tick of
//! the tick clock, and the sounding key is synthesised into the two sample
//! buffers that the pulse generator streams in turn.
use crate::midi::{
    advance, earliest, heads, initial_schedule, lemma_advance_shrinks, lemma_finished_is_empty,
    smf_contents, tick_rate, total, LoadError, Midi, MidiEvent, NextMidiEvent, Timed,
};
use crate::pipeline::{BufferState, DoubleBuffer};
use crate::synth::{
    fill, fill_silence, key_to_period, period_of, silence, tone, Waveform, MAX_VOLUME,
};
use crate::voices::{apply_event, highest, lemma_highest, VoiceTable, MAX_CHANNELS};
use vstd::prelude::*;

verus! {

/// Samples per second.
pub const SAMPLE_RATE: u32 = 16387;

/// Samples per buffer.
pub const BUFFER_SIZE: usize = 16;

/// Frequency of the pulse generator's counter clock.
pub const PWM_CLOCK_FREQ: u32 = 16777216;

/// The counter top that makes one pulse period last one sample.
pub const PWM_COUNTERTOP: u16 = 1023;

/// What a tick of the clock came to.
#[derive(Clone, Copy, Debug, PartialEq, Eq, Structural)]
pub enum StepOutcome {
    /// Playback goes on.
    Playing,
    /// Every track is exhausted: the voices are silenced and the clock and
    /// the pulse generator must stop.
    Finished,
    /// A note event named a channel beyond the voice table.
    BadChannel(u8),
}

/// Period used for `key`: never zero.
pub open spec fn play_period(key: u8) -> int {
    let p = period_of(SAMPLE_RATE as nat, key as nat);
    if p == 0 {
        1
    } else {
        p as int
    }
}

/// One buffer of output for the keys `keys`, given the key that sounded
/// before and the cursor it had reached: the highest key sounds, from the
/// cursor where it already sounded and from zero where it changed; silence
/// where no key sounds. Returns the duties, the sounding key and the cursor.
pub open spec fn render(
    waveform: Waveform,
    keys: Seq<Option<u8>>,
    sounding: Option<u8>,
    cursor: int,
) -> (Seq<u16>, Option<u8>, int) {
    let key = highest(keys);
    let start = if key == sounding {
        cursor
    } else {
        0
    };
    match key {
        None => (silence(BUFFER_SIZE as nat), key, start),
        Some(k) => (
            tone(waveform, start, play_period(k), MAX_VOLUME as int, PWM_COUNTERTOP as int, BUFFER_SIZE as nat),
            key,
            (start + BUFFER_SIZE) % play_period(k),
        ),
    }
}

/// All the note events due by `tick`, applied to the voice table `keys` in
/// order. Stops at the first event on a channel beyond the table; silences
/// every voice once the tracks are exhausted.
pub open spec fn play_tick(s: Seq<Seq<Timed>>, keys: Seq<Option<u8>>, tick: int) -> (
    Seq<Seq<Timed>>,
    Seq<Option<u8>>,
    StepOutcome,
)
    decreases total(s),
{
    let (s1, r, _) = advance(s, tick);
    match r {
        NextMidiEvent::Finished => (s1, crate::voices::silence(), StepOutcome::Finished),
        NextMidiEvent::Pending => (s1, keys, StepOutcome::Playing),
        NextMidiEvent::Event(channel, event) => if channel >= MAX_CHANNELS {
            (s1, keys, StepOutcome::BadChannel(channel))
        } else {
            proof {
                lemma_advance_shrinks(s, tick);
            }
            play_tick(s1, apply_event(keys, channel as int, event), tick)
        },
    }
}

proof fn lemma_play_tick_finished(s: Seq<Seq<Timed>>, keys: Seq<Option<u8>>, tick: int)
    ensures
        play_tick(s, keys, tick).2 == StepOutcome::Finished ==> earliest(
            heads(play_tick(s, keys, tick).0),
        ) is None,
    decreases total(s),
{
    lemma_finished_is_empty(s, tick);
    let (s1, r, _) = advance(s, tick);
    match r {
        NextMidiEvent::Event(channel, event) => {
            if channel < MAX_CHANNELS {
                lemma_advance_shrinks(s, tick);
                lemma_play_tick_finished(s1, apply_event(keys, channel as int, event), tick);
            }
        },
        _ => {},
    }
}

/// Once a tick reports `Finished`, every later tick reports `Finished`.
pub proof fn lemma_step_finished_stays_finished(
    s: Seq<Seq<Timed>>,
    keys: Seq<Option<u8>>,
    tick1: int,
    keys2: Seq<Option<u8>>,
    tick2: int,
)
    ensures
        play_tick(s, keys, tick1).2 == StepOutcome::Finished ==> play_tick(
            play_tick(s, keys, tick1).0,
            keys2,
            tick2,
        ).2 == StepOutcome::Finished,
{
    lemma_play_tick_finished(s, keys, tick1);
}

/// Frequency of the low-frequency clock that drives the tick timer.
pub const TICK_CLOCK_FREQ: u32 = 32768;

/// The tick timer's prescaler for `ticks_per_sec` ticks per second: the
/// clock divided by the tick rate, rounded to the nearest whole number
/// (halves up), less one, and never below zero.
pub open spec fn prescaler_for(ticks_per_sec: int) -> int {
    let q = (2 * TICK_CLOCK_FREQ + ticks_per_sec) / (2 * ticks_per_sec);
    if q == 0 {
        0
    } else {
        q - 1
    }
}

/// The tick timer's prescaler for `ticks_per_sec` ticks per second; `None`
/// for a rate of zero.
pub fn rtc_prescaler(ticks_per_sec: usize) -> (r: Option<u16>)
    ensures
        match r {
            Some(p) => ticks_per_sec > 0 && p == prescaler_for(ticks_per_sec as int),
            None => ticks_per_sec == 0,
        },
{
    if ticks_per_sec == 0 {
        return None;
    }
    let tps = ticks_per_sec as u128;
    let q: u128 = (2 * TICK_CLOCK_FREQ as u128 + tps) / (2 * tps);
    assert(q <= 32768) by (nonlinear_arith)
        requires
            tps >= 1,
            q == (2 * TICK_CLOCK_FREQ as int + tps) / (2 * tps),
    {
        assert(2 * TICK_CLOCK_FREQ as int + tps <= 32769 * (2 * tps));
    }
    if q == 0 {
        Some(0)
    } else {
        Some((q - 1) as u16)
    }
}

/// The MIDI player's state.
pub struct Player {
    voices: VoiceTable,
    midi: Midi,
    tick: u32,
    buffers: DoubleBuffer,
    waveform: Waveform,
    cursor: usize,
    sounding: Option<u8>,
}

impl Player {
    /// The key on each channel.
    pub closed spec fn keys(&self) -> Seq<Option<u8>> {
        self.voices@
    }

    /// The scheduler's pending events (see `Midi::schedule`).
    pub closed spec fn schedule(&self) -> Seq<Seq<Timed>> {
        self.midi.schedule()
    }

    /// Ticks of the tick clock so far.
    pub closed spec fn tick_count(&self) -> int {
        self.tick as int
    }

    /// The two sample buffers.
    pub closed spec fn output(&self) -> DoubleBuffer {
        self.buffers
    }

    /// The waveform synthesised.
    pub closed spec fn wave(&self) -> Waveform {
        self.waveform
    }

    /// Sample position reached in the sounding wave.
    pub closed spec fn cursor_pos(&self) -> int {
        self.cursor as int
    }

    /// The key that sounded in the last buffer filled.
    pub closed spec fn sounding_key(&self) -> Option<u8> {
        self.sounding
    }

    /// Ticks per second of the loaded file.
    pub closed spec fn rate(&self) -> int {
        self.midi.rate()
    }

    /// The player's invariant.
    pub closed spec fn wf(&self) -> bool {
        &&& self.midi.wf()
        &&& self.buffers.wf(BUFFER_SIZE as nat)
    }

    /// A player for the MIDI file `bytes`, at tick zero with every voice
    /// silent and both buffers owned by software.
    pub fn new(bytes: &'static [u8], waveform: Waveform) -> (r: Result<Player, LoadError>)
        ensures
            match r {
                Ok(p) => {
                    &&& p.wf()
                    &&& p.tick_count() == 0
                    &&& p.keys() == crate::voices::silence()
                    &&& p.output().idle()
                    &&& p.wave() == waveform
                    &&& p.cursor_pos() == 0
                    &&& p.sounding_key() is None
                    &&& match smf_contents(bytes@) {
                        Some((timing, tracks)) => p.schedule() == initial_schedule(tracks)
                            && p.rate() == tick_rate(timing),
                        None => false,
                    }
                },
                Err(e) => e == LoadError::Malformed && smf_contents(bytes@) is None,
            },
    {
        let midi = match Midi::load(bytes) {
            Ok(m) => m,
            Err(e) => {
                return Err(e);
            },
        };
        Ok(
            Player {
                voices: VoiceTable::new(),
                midi,
                tick: 0,
                buffers: DoubleBuffer::new(BUFFER_SIZE),
                waveform,
                cursor: 0,
                sounding: None,
            },
        )
    }

    /// Refills buffer `idx`, which software owns, with the next stretch of
    /// output (see `render`). Where every channel is silent, every sample of
    /// the buffer is the silent duty.
    pub fn fill_buffer(&mut self, idx: usize)
        requires
            old(self).wf(),
            idx < 2,
            old(self).output().state(idx as int) == BufferState::Filling,
        ensures
            final(self).wf(),
            ({
                let (duties, key, cursor) = render(
                    old(self).wave(),
                    old(self).keys(),
                    old(self).sounding_key(),
                    old(self).cursor_pos(),
                );
                &&& final(self).output().contents(idx as int) == duties
                &&& final(self).sounding_key() == key
                &&& final(self).cursor_pos() == cursor
            }),
            (forall|c: int| 0 <= c < MAX_CHANNELS ==> old(self).keys()[c] is None) ==> (forall|i: int|
                0 <= i < BUFFER_SIZE ==> final(self).output().contents(idx as int)[i]
                    == crate::synth::SILENT_DUTY),
            final(self).output().contents(1 - idx) == old(self).output().contents(1 - idx),
            final(self).output().state(0) == old(self).output().state(0),
            final(self).output().state(1) == old(self).output().state(1),
            final(self).keys() == old(self).keys(),
            final(self).schedule() == old(self).schedule(),
            final(self).tick_count() == old(self).tick_count(),
            final(self).wave() == old(self).wave(),
            final(self).rate() == old(self).rate(),
    {
        let key = self.voices.highest_key();
        proof {
            lemma_highest(self.voices@);
            self.voices.lemma_len();
        }
        if key != self.sounding {
            self.cursor = 0;
            self.sounding = key;
        }
        let waveform = self.waveform;
        let cursor = self.cursor;
        let buf = self.buffers.buffer_mut(idx);
        match key {
            None => {
                fill_silence(buf);
            },
            Some(k) => {
                let p = key_to_period(SAMPLE_RATE, k);
                let period = if p == 0 {
                    1
                } else {
                    p
                };
                let next = fill(buf, waveform, cursor, period, MAX_VOLUME, PWM_COUNTERTOP);
                self.cursor = next;
            },
        }
    }

    /// Begins playback: fills both buffers and hands buffer 0 to the pulse
    /// generator. Returns the buffer whose streaming must be started.
    pub fn start(&mut self) -> (r: usize)
        requires
            old(self).wf(),
            old(self).output().idle(),
        ensures
            r == 0,
            final(self).wf(),
            ({
                let (d0, k0, c0) = render(
                    old(self).wave(),
                    old(self).keys(),
                    old(self).sounding_key(),
                    old(self).cursor_pos(),
                );
                let (d1, k1, c1) = render(old(self).wave(), old(self).keys(), k0, c0);
                &&& final(self).output().contents(0) == d0
                &&& final(self).output().contents(1) == d1
                &&& final(self).sounding_key() == k1
                &&& final(self).cursor_pos() == c1
            }),
            final(self).output().state(0) == BufferState::Streaming,
            final(self).output().state(1) == BufferState::Filling,
            final(self).keys() == old(self).keys(),
            final(self).schedule() == old(self).schedule(),
            final(self).tick_count() == old(self).tick_count(),
            final(self).wave() == old(self).wave(),
            final(self).rate() == old(self).rate(),
    {
        self.fill_buffer(0);
        self.fill_buffer(1);
        self.buffers.start(0);
        0
    }

    /// The pulse generator has finished streaming buffer `finished`: the
    /// other buffer is handed to it, and `finished` goes back to software.
    /// Returns the buffer whose streaming must be started now; the caller
    /// starts it first and refills `finished` with `fill_buffer` after.
    pub fn handle_pwm(&mut self, finished: usize) -> (next: usize)
        requires
            old(self).wf(),
            finished < 2,
            old(self).output().state(finished as int) == BufferState::Streaming,
        ensures
            final(self).wf(),
            next == 1 - finished,
            final(self).output().state(next as int) == BufferState::Streaming,
            final(self).output().state(finished as int) == BufferState::Filling,
            final(self).output().contents(0) == old(self).output().contents(0),
            final(self).output().contents(1) == old(self).output().contents(1),
            final(self).keys() == old(self).keys(),
            final(self).schedule() == old(self).schedule(),
            final(self).tick_count() == old(self).tick_count(),
            final(self).wave() == old(self).wave(),
            final(self).cursor_pos() == old(self).cursor_pos(),
            final(self).sounding_key() == old(self).sounding_key(),
            final(self).rate() == old(self).rate(),
    {
        self.buffers.sequence_end(finished)
    }

    /// Applies a note event on `channel` to the voice table.
    pub fn handle_midi_event(&mut self, channel: u8, event: MidiEvent)
        requires
            old(self).wf(),
            channel < MAX_CHANNELS,
        ensures
            final(self).wf(),
            final(self).keys() == apply_event(old(self).keys(), channel as int, event),
            final(self).output() == old(self).output(),
            final(self).schedule() == old(self).schedule(),
            final(self).tick_count() == old(self).tick_count(),
            final(self).wave() == old(self).wave(),
            final(self).cursor_pos() == old(self).cursor_pos(),
            final(self).sounding_key() == old(self).sounding_key(),
            final(self).rate() == old(self).rate(),
    {
        self.voices.handle_midi_event(channel, event);
    }

    /// One tick of the tick clock: advances the tick count by one and
    /// applies every note event now due (see `play_tick`). On `Finished` the
    /// voices are silenced and both buffers go back to software, for the
    /// caller stops the clock and the pulse generator.
    pub fn step(&mut self) -> (r: StepOutcome)
        requires
            old(self).wf(),
            old(self).tick_count() < u32::MAX,
        ensures
            final(self).wf(),
            final(self).tick_count() == old(self).tick_count() + 1,
            final(self).schedule() == play_tick(
                old(self).schedule(),
                old(self).keys(),
                old(self).tick_count() + 1,
            ).0,
            final(self).keys() == play_tick(
                old(self).schedule(),
                old(self).keys(),
                old(self).tick_count() + 1,
            ).1,
            r == play_tick(old(self).schedule(), old(self).keys(), old(self).tick_count() + 1).2,
            r == StepOutcome::Finished ==> final(self).output().idle(),
            final(self).output().contents(0) == old(self).output().contents(0),
            final(self).output().contents(1) == old(self).output().contents(1),
            r != StepOutcome::Finished ==> final(self).output() == old(self).output(),
            final(self).wave() == old(self).wave(),
            final(self).cursor_pos() == old(self).cursor_pos(),
            final(self).sounding_key() == old(self).sounding_key(),
            final(self).rate() == old(self).rate(),
    {
        self.tick = self.tick + 1;
        let tick = self.tick;
        let ghost goal = play_tick(old(self).schedule(), old(self).keys(), tick as int);
        loop
            invariant
                self.wf(),
                self.tick == tick,
                tick == old(self).tick_count() + 1,
                play_tick(self.schedule(), self.keys(), tick as int) == goal,
                goal == play_tick(old(self).schedule(), old(self).keys(), tick as int),
                self.output() == old(self).output(),
                self.wave() == old(self).wave(),
                self.cursor_pos() == old(self).cursor_pos(),
                self.sounding_key() == old(self).sounding_key(),
                self.rate() == old(self).rate(),
            decreases total(self.schedule()),
        {
            let ghost s = self.schedule();
            proof {
                lemma_advance_shrinks(s, tick as int);
            }
            match self.midi.next_midi_event(tick) {
                NextMidiEvent::Event(channel, event) => {
                    if channel >= MAX_CHANNELS as u8 {
                        return StepOutcome::BadChannel(channel);
                    }
                    self.voices.handle_midi_event(channel, event);
                },
                NextMidiEvent::Pending => {
                    return StepOutcome::Playing;
                },
                NextMidiEvent::Finished => {
                    self.voices.silence_all();
                    self.buffers.stop();
                    return StepOutcome::Finished;
                },
            }
        }
    }

    /// Raises the key on channel 0 by one semitone.
    pub fn raise_key(&mut self)
        requires
            old(self).wf(),
        ensures
            final(self).wf(),
            final(self).keys() == old(self).keys().update(
                0,
                Some(
                    match old(self).keys()[0] {
                        Some(k) => if k < 255 {
                            (k + 1) as u8
                        } else {
                            k
                        },
                        None => (crate::voices::DEFAULT_KEY + 1) as u8,
                    },
                ),
            ),
            final(self).output() == old(self).output(),
            final(self).schedule() == old(self).schedule(),
            final(self).tick_count() == old(self).tick_count(),
            final(self).cursor_pos() == old(self).cursor_pos(),
            final(self).sounding_key() == old(self).sounding_key(),
    {
        self.voices.raise_key();
    }

    /// Lowers the key on channel 0 by one semitone.
    pub fn lower_key(&mut self)
        requires
            old(self).wf(),
        ensures
            final(self).wf(),
            final(self).keys() == old(self).keys().update(
                0,
                Some(
                    match old(self).keys()[0] {
                        Some(k) => if k > 0 {
                            (k - 1) as u8
                        } else {
                            k
                        },
                        None => (crate::voices::DEFAULT_KEY - 1) as u8,
                    },
                ),
            ),
            final(self).output() == old(self).output(),
            final(self).schedule() == old(self).schedule(),
            final(self).tick_count() == old(self).tick_count(),
            final(self).cursor_pos() == old(self).cursor_pos(),
            final(self).sounding_key() == old(self).sounding_key(),
    {
        self.voices.lower_key();
    }

    /// The tick count.
    pub fn tick(&self) -> (r: u32)
        ensures
            r == self.tick_count(),
    {
        self.tick
    }

    /// Ticks per second of the loaded file.
    pub fn ticks_per_sec(&self) -> (r: usize)
        ensures
            r == self.rate(),
    {
        self.midi.ticks_per_sec()
    }

    /// The voice table.
    pub fn voices(&self) -> (r: &VoiceTable)
        ensures
            r@ == self.keys(),
    {
        &self.voices
    }

    /// The two sample buffers.
    pub fn buffers(&self) -> (r: &DoubleBuffer)
        ensures
            *r == self.output(),
    {
        &self.buffers
    }
}

} // verus!
