//! Playback of 8-bit unsigned PCM data resampled to an adjustable output
//! rate, with buttons that tune the output rate or the sample repetition.
use crate::beeper::{pcm_duty, pcm_duty_of};
use crate::pipeline::{BufferState, DoubleBuffer};
use vstd::prelude::*;

verus! {

/// Samples per second of the PCM data.
pub const DATA_SAMPLE_RATE: u32 = 16000;

/// Frequency of the pulse generator's counter clock.
pub const PWM_CLOCK_FREQ: u32 = 16777216;

/// Samples per buffer.
pub const BUF_LEN: usize = 512;

/// The output rate a player starts with.
pub const INITIAL_SAMPLE_RATE: u32 = 16000;

/// The repetition a player starts with.
pub const INITIAL_REFRESH: u32 = 3;

/// How much one button press moves the output rate.
pub const SAMPLE_RATE_STEP: u32 = 100;

/// The tunable playback settings.
#[derive(Clone, Copy, Debug, PartialEq, Eq, Structural)]
pub struct PcmSettings {
    /// Output samples per second.
    pub target_sample_rate: u32,
    /// Each sample is played `refresh + 1` pulse periods long.
    pub refresh: u32,
}

/// What the buttons tune.
#[derive(Clone, Copy, Debug, PartialEq, Eq, Structural)]
pub enum ButtonFunction {
    PwmRefresh,
    TargetSampleRate,
}

/// `x + d`, wrapping round at `u32::MAX`.
pub open spec fn wrap_add(x: u32, d: u32) -> u32 {
    ((x + d) % 0x1_0000_0000) as u32
}

/// `x - d`, wrapping round at zero.
pub open spec fn wrap_sub(x: u32, d: u32) -> u32 {
    ((x - d + 0x1_0000_0000) % 0x1_0000_0000) as u32
}

impl ButtonFunction {
    /// Raises the tuned setting: the repetition by one, or the output rate
    /// by `SAMPLE_RATE_STEP`, wrapping round as a 32-bit counter.
    pub fn up(&self, settings: &mut PcmSettings)
        ensures
            *final(settings) == match self {
                ButtonFunction::PwmRefresh => PcmSettings {
                    refresh: wrap_add(old(settings).refresh, 1),
                    ..*old(settings)
                },
                ButtonFunction::TargetSampleRate => PcmSettings {
                    target_sample_rate: wrap_add(old(settings).target_sample_rate, SAMPLE_RATE_STEP),
                    ..*old(settings)
                },
            },
    {
        match self {
            ButtonFunction::PwmRefresh => {
                settings.refresh = settings.refresh.wrapping_add(1);
            },
            ButtonFunction::TargetSampleRate => {
                settings.target_sample_rate = settings.target_sample_rate.wrapping_add(
                    SAMPLE_RATE_STEP,
                );
            },
        }
    }

    /// Lowers the tuned setting: the repetition by one, or the output rate
    /// by `SAMPLE_RATE_STEP`, wrapping round as a 32-bit counter.
    pub fn down(&self, settings: &mut PcmSettings)
        ensures
            *final(settings) == match self {
                ButtonFunction::PwmRefresh => PcmSettings {
                    refresh: wrap_sub(old(settings).refresh, 1),
                    ..*old(settings)
                },
                ButtonFunction::TargetSampleRate => PcmSettings {
                    target_sample_rate: wrap_sub(old(settings).target_sample_rate, SAMPLE_RATE_STEP),
                    ..*old(settings)
                },
            },
    {
        match self {
            ButtonFunction::PwmRefresh => {
                settings.refresh = settings.refresh.wrapping_sub(1);
            },
            ButtonFunction::TargetSampleRate => {
                settings.target_sample_rate = settings.target_sample_rate.wrapping_sub(
                    SAMPLE_RATE_STEP,
                );
            },
        }
    }
}

/// The counter top that makes `refresh + 1` pulse periods last one output
/// sample, kept to 16 bits as the register holds it.
pub open spec fn countertop_for(settings: PcmSettings) -> int {
    (PWM_CLOCK_FREQ as int / (settings.target_sample_rate * (settings.refresh + 1))) % 0x1_0000
}

/// The counter top for `settings`; `None` where the output rate is zero.
pub fn countertop(settings: &PcmSettings) -> (r: Option<u16>)
    ensures
        match r {
            Some(top) => settings.target_sample_rate > 0 && top == countertop_for(*settings),
            None => settings.target_sample_rate == 0,
        },
{
    if settings.target_sample_rate == 0 {
        return None;
    }
    assert(1 <= settings.target_sample_rate as int * (settings.refresh as int + 1)
        <= 0xFFFF_FFFF * 0x1_0000_0000) by (nonlinear_arith)
        requires
            1 <= settings.target_sample_rate <= 0xFFFF_FFFF,
            settings.refresh <= 0xFFFF_FFFF,
    ;
    let divisor: u64 = settings.target_sample_rate as u64 * (settings.refresh as u64 + 1);
    Some(((PWM_CLOCK_FREQ as u64 / divisor) % 0x1_0000) as u16)
}

/// Index into `len` data samples of output sample `i` from `cursor`, with
/// the data resampled from `DATA_SAMPLE_RATE` to `rate`.
pub open spec fn data_pos(cursor: int, i: int, rate: int, len: int) -> int {
    (cursor + DATA_SAMPLE_RATE * i / rate) % len
}

/// Fills `buffer` from `data`, resampled from `DATA_SAMPLE_RATE` to
/// `target_sample_rate`, starting at sample `cursor` and wrapping round at
/// the end of the data, on a counter that runs up to `countertop`; returns
/// the cursor that the next buffer starts from.
pub fn fill_samples(
    buffer: &mut [u16],
    data: &[u8],
    cursor: usize,
    target_sample_rate: u32,
    countertop: u16,
) -> (r: usize)
    requires
        data@.len() > 0,
        target_sample_rate > 0,
    ensures
        final(buffer)@.len() == old(buffer)@.len(),
        forall|i: int|
            0 <= i < old(buffer)@.len() ==> #[trigger] final(buffer)@[i] == pcm_duty(
                data@[data_pos(cursor as int, i, target_sample_rate as int, data@.len() as int)],
                countertop,
            ),
        r == data_pos(
            cursor as int,
            old(buffer)@.len() as int,
            target_sample_rate as int,
            data@.len() as int,
        ),
{
    let n = buffer.len();
    let len = data.len();
    let mut i: usize = 0;
    while i < n
        invariant
            n == buffer@.len(),
            len == data@.len(),
            len > 0,
            target_sample_rate > 0,
            i <= n,
            forall|k: int|
                0 <= k < i ==> #[trigger] buffer@[k] == pcm_duty(
                    data@[data_pos(cursor as int, k, target_sample_rate as int, len as int)],
                    countertop,
                ),
        decreases n - i,
    {
        let pos = position(cursor, i, target_sample_rate, len);
        buffer[i] = pcm_duty_of(data[pos], countertop);
        i = i + 1;
    }
    position(cursor, n, target_sample_rate, len)
}

fn position(cursor: usize, i: usize, rate: u32, len: usize) -> (r: usize)
    requires
        rate > 0,
        len > 0,
    ensures
        r == data_pos(cursor as int, i as int, rate as int, len as int),
        r < len,
{
    assert(DATA_SAMPLE_RATE as int * i as int <= 16000 * 0xFFFF_FFFF_FFFF_FFFF) by (nonlinear_arith)
        requires
            i <= 0xFFFF_FFFF_FFFF_FFFF,
    ;
    let step: u128 = DATA_SAMPLE_RATE as u128 * i as u128 / rate as u128;
    assert(step <= DATA_SAMPLE_RATE as int * i as int) by (nonlinear_arith)
        requires
            rate >= 1,
            step == DATA_SAMPLE_RATE as int * i as int / rate as int,
    ;
    proof {
        vstd::arithmetic::div_mod::lemma_mod_bound(cursor + step as int, len as int);
    }
    ((cursor as u128 + step) % len as u128) as usize
}

/// A resampling PCM player: its cursor, settings, counter top and buffers.
pub struct PcmPlayer {
    cursor: usize,
    settings: PcmSettings,
    function: ButtonFunction,
    countertop: u16,
    buffers: DoubleBuffer,
}

impl PcmPlayer {
    /// The data sample the next buffer starts from.
    pub closed spec fn position(&self) -> int {
        self.cursor as int
    }

    /// The current settings.
    pub closed spec fn tuning(&self) -> PcmSettings {
        self.settings
    }

    /// The counter top in use.
    pub closed spec fn top(&self) -> u16 {
        self.countertop
    }

    /// The two sample buffers.
    pub closed spec fn output(&self) -> DoubleBuffer {
        self.buffers
    }

    /// What the buttons tune.
    pub closed spec fn function(&self) -> ButtonFunction {
        self.function
    }

    /// The player's invariant.
    pub closed spec fn wf(&self) -> bool {
        self.buffers.wf(BUF_LEN as nat)
    }

    /// Refills buffer `id`, which software owns, with the next stretch of
    /// `data` at the current settings.
    pub fn fill_next_buffer(&mut self, id: usize, data: &[u8])
        requires
            old(self).wf(),
            id < 2,
            old(self).output().state(id as int) == BufferState::Filling,
            data@.len() > 0,
            old(self).tuning().target_sample_rate > 0,
        ensures
            final(self).wf(),
            forall|i: int|
                0 <= i < BUF_LEN ==> #[trigger] final(self).output().contents(id as int)[i]
                    == pcm_duty(
                    data@[data_pos(
                        old(self).position(),
                        i,
                        old(self).tuning().target_sample_rate as int,
                        data@.len() as int,
                    )],
                    old(self).top(),
                ),
            final(self).position() == data_pos(
                old(self).position(),
                BUF_LEN as int,
                old(self).tuning().target_sample_rate as int,
                data@.len() as int,
            ),
            final(self).output().contents(1 - id) == old(self).output().contents(1 - id),
            final(self).output().state(0) == old(self).output().state(0),
            final(self).output().state(1) == old(self).output().state(1),
            final(self).tuning() == old(self).tuning(),
            final(self).top() == old(self).top(),
            final(self).function() == old(self).function(),
    {
        let cursor = self.cursor;
        let rate = self.settings.target_sample_rate;
        let top = self.countertop;
        let buf = self.buffers.buffer_mut(id);
        let next = fill_samples(buf, data, cursor, rate, top);
        self.cursor = next;
    }

    /// The pulse generator has finished streaming buffer `finished`: the
    /// other buffer is handed to it, and `finished` goes back to software.
    /// Returns the buffer whose streaming must be started now; the caller
    /// starts it first and refills `finished` with `fill_next_buffer` after.
    pub fn sequence_end(&mut self, finished: usize) -> (next: usize)
        requires
            old(self).wf(),
            finished < 2,
            old(self).output().state(finished as int) == BufferState::Streaming,
        ensures
            final(self).wf(),
            next == 1 - finished,
            final(self).output().state(next as int) == BufferState::Streaming,
            final(self).output().state(finished as int) == BufferState::Filling,
            final(self).output().contents(0) == old(self).output().contents(0),
            final(self).output().contents(1) == old(self).output().contents(1),
            final(self).position() == old(self).position(),
            final(self).tuning() == old(self).tuning(),
            final(self).top() == old(self).top(),
    {
        self.buffers.sequence_end(finished)
    }

    /// A button press: `up` raises the tuned setting, otherwise it is
    /// lowered; the counter top follows the new settings. Returns the new
    /// counter top, or `None` (and the old counter top stays) where the
    /// output rate has become zero.
    pub fn press(&mut self, up: bool) -> (r: Option<u16>)
        requires
            old(self).wf(),
        ensures
            final(self).wf(),
            final(self).tuning() == ({
                let s = old(self).tuning();
                if up {
                    match old(self).function() {
                        ButtonFunction::PwmRefresh => PcmSettings { refresh: wrap_add(s.refresh, 1), ..s },
                        ButtonFunction::TargetSampleRate => PcmSettings {
                            target_sample_rate: wrap_add(s.target_sample_rate, SAMPLE_RATE_STEP),
                            ..s
                        },
                    }
                } else {
                    match old(self).function() {
                        ButtonFunction::PwmRefresh => PcmSettings { refresh: wrap_sub(s.refresh, 1), ..s },
                        ButtonFunction::TargetSampleRate => PcmSettings {
                            target_sample_rate: wrap_sub(s.target_sample_rate, SAMPLE_RATE_STEP),
                            ..s
                        },
                    }
                }
            }),
            match r {
                Some(top) => final(self).tuning().target_sample_rate > 0 && top == countertop_for(
                    final(self).tuning(),
                ) && final(self).top() == top,
                None => final(self).tuning().target_sample_rate == 0 && final(self).top()
                    == old(self).top(),
            },
            final(self).output() == old(self).output(),
            final(self).position() == old(self).position(),
            final(self).function() == old(self).function(),
    {
        if up {
            self.function.up(&mut self.settings);
        } else {
            self.function.down(&mut self.settings);
        }
        let top = countertop(&self.settings);
        match top {
            Some(t) => {
                self.countertop = t;
            },
            None => {},
        }
        top
    }

    /// The two sample buffers.
    pub fn buffers(&self) -> (r: &DoubleBuffer)
        ensures
            *r == self.output(),
    {
        &self.buffers
    }

    /// The current settings.
    pub fn settings(&self) -> (r: PcmSettings)
        ensures
            r == self.tuning(),
    {
        self.settings
    }

    /// The current counter top.
    pub fn countertop(&self) -> (r: u16)
        ensures
            r == self.top(),
    {
        self.countertop
    }
}

/// Begins playback of `data` with the initial settings and the buttons
/// tuning the output rate: fills buffer 0 and then buffer 1 from the start
/// of the data, and hands buffer 0 to the pulse generator, whose streaming
/// must then be started.
pub fn play(data: &[u8]) -> (r: PcmPlayer)
    requires
        data@.len() > 0,
    ensures
        r.wf(),
        r.tuning() == (PcmSettings { target_sample_rate: INITIAL_SAMPLE_RATE, refresh: INITIAL_REFRESH }),
        r.top() == countertop_for(r.tuning()),
        r.function() == ButtonFunction::TargetSampleRate,
        r.output().state(0) == BufferState::Streaming,
        r.output().state(1) == BufferState::Filling,
        forall|i: int|
            0 <= i < BUF_LEN ==> #[trigger] r.output().contents(0)[i] == pcm_duty(
                data@[data_pos(0, i, INITIAL_SAMPLE_RATE as int, data@.len() as int)],
                r.top(),
            ),
        forall|i: int|
            0 <= i < BUF_LEN ==> #[trigger] r.output().contents(1)[i] == pcm_duty(
                data@[data_pos(
                    data_pos(0, BUF_LEN as int, INITIAL_SAMPLE_RATE as int, data@.len() as int),
                    i,
                    INITIAL_SAMPLE_RATE as int,
                    data@.len() as int,
                )],
                r.top(),
            ),
        r.position() == data_pos(
            data_pos(0, BUF_LEN as int, INITIAL_SAMPLE_RATE as int, data@.len() as int),
            BUF_LEN as int,
            INITIAL_SAMPLE_RATE as int,
            data@.len() as int,
        ),
{
    let settings = PcmSettings { target_sample_rate: INITIAL_SAMPLE_RATE, refresh: INITIAL_REFRESH };
    let top = match countertop(&settings) {
        Some(t) => t,
        None => 0,
    };
    let mut p = PcmPlayer {
        cursor: 0,
        settings,
        function: ButtonFunction::TargetSampleRate,
        countertop: top,
        buffers: DoubleBuffer::new(BUF_LEN),
    };
    p.fill_next_buffer(0, data);
    p.fill_next_buffer(1, data);
    p.buffers.start(0);
    p
}

} // verus!
