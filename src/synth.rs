//! Waveform synthesis in integer arithmetic.
//!
//! A phase is a fixed-point fraction of one period, in units of
//! `1 / PHASE_ONE`. A waveform level lies in `[-WAVE_PEAK, WAVE_PEAK]`, which
//! stands for the range `[-1, 1]`. Levels are turned into compare-register
//! values (duty) in `[0, top]` of the pulse generator's counter.
use vstd::prelude::*;

verus! {

/// One full period, as a fixed-point phase.
pub const PHASE_ONE: u64 = 65536;

/// Half a period, as a fixed-point phase.
pub const PHASE_HALF: u64 = 32768;

/// The level that stands for an amplitude of 1.
pub const WAVE_PEAK: u64 = 32768;

/// The largest volume; a volume of `MAX_VOLUME` uses the whole counter range.
pub const MAX_VOLUME: u8 = 127;

/// The duty written when no note sounds.
pub const SILENT_DUTY: u16 = 0;

/// The key of the tuning reference (middle C, about 261.626 Hz).
pub const REFERENCE_KEY: u8 = 60;

/// The waveform law used to turn a phase into a level.
#[derive(Clone, Copy, Debug, PartialEq, Eq, Structural)]
pub enum Waveform {
    Sine,
    Square,
    Triangle,
}

/// `2^32 / f`, rounded, where `f` is the frequency in Hz of key `60 + j`
/// in equal temperament with key 60 at 261.625565 Hz.
pub open spec fn inverse_freq(j: int) -> int {
    if j == 0 {
        16416466
    } else if j == 1 {
        15495081
    } else if j == 2 {
        14625409
    } else if j == 3 {
        13804548
    } else if j == 4 {
        13029758
    } else if j == 5 {
        12298454
    } else if j == 6 {
        11608195
    } else if j == 7 {
        10956677
    } else if j == 8 {
        10341726
    } else if j == 9 {
        9761289
    } else if j == 10 {
        9213430
    } else {
        8696320
    }
}

/// `x` halved `n` times, rounding down each time.
pub open spec fn halved(x: nat, n: nat) -> nat
    decreases n,
{
    if n == 0 {
        x
    } else {
        halved(x, (n - 1) as nat) / 2
    }
}

/// Period, in samples, of the lowest key (key 0) that shares its pitch class
/// with `key`, at `sample_rate` samples per second.
pub open spec fn lowest_octave_period(sample_rate: nat, key: nat) -> nat {
    (sample_rate * inverse_freq((key % 12) as int) * 32 / 0x1_0000_0000) as nat
}

/// Period, in samples, of `key` at `sample_rate` samples per second:
/// `sample_rate / (261.626 * 2^((key - 60) / 12))`, rounded down, computed
/// so that each octave up halves the period exactly.
pub open spec fn period_of(sample_rate: nat, key: nat) -> nat {
    halved(lowest_octave_period(sample_rate, key), key / 12)
}

proof fn lemma_halved_bound(x: nat, n: nat)
    ensures
        halved(x, n) <= x,
    decreases n,
{
    if n > 0 {
        lemma_halved_bound(x, (n - 1) as nat);
    }
}

/// One octave up halves the period (rounded down).
pub proof fn lemma_octave_halves_period(sample_rate: nat, key: nat)
    ensures
        period_of(sample_rate, key + 12) == period_of(sample_rate, key) / 2,
{
    assert((key + 12) % 12 == key % 12);
    assert((key + 12) / 12 == key / 12 + 1);
}

fn inverse_freq_of(j: u8) -> (r: u64)
    requires
        j < 12,
    ensures
        r == inverse_freq(j as int),
{
    match j {
        0 => 16416466,
        1 => 15495081,
        2 => 14625409,
        3 => 13804548,
        4 => 13029758,
        5 => 12298454,
        6 => 11608195,
        7 => 10956677,
        8 => 10341726,
        9 => 9761289,
        10 => 9213430,
        _ => 8696320,
    }
}

/// Period, in samples, of `key` at `sample_rate` samples per second.
pub fn key_to_period(sample_rate: u32, key: u8) -> (r: usize)
    ensures
        r == period_of(sample_rate as nat, key as nat),
{
    let inv = inverse_freq_of(key % 12);
    assert(inv <= 16416466);
    assert(sample_rate as u64 * inv <= 0xFFFF_FFFF * 16416466) by (nonlinear_arith)
        requires
            inv <= 16416466,
            sample_rate <= 0xFFFF_FFFF,
    ;
    let scaled: u64 = sample_rate as u64 * inv * 32;
    let base: u64 = scaled / 0x1_0000_0000;
    assert(base < 0x2000_0000) by (nonlinear_arith)
        requires
            scaled <= 0xFFFF_FFFF * 16416466 * 32,
            base == scaled / 0x1_0000_0000,
    ;
    let octaves: u8 = key / 12;
    let mut p: u64 = base;
    let mut n: u8 = 0;
    while n < octaves
        invariant
            n <= octaves,
            p == halved(base as nat, n as nat),
        decreases octaves - n,
    {
        p = p / 2;
        n = n + 1;
    }
    proof {
        lemma_halved_bound(base as nat, octaves as nat);
    }
    p as usize
}

/// Phase, in units of `1 / PHASE_ONE`, of sample position `pos` in a period
/// of `period` samples: `((pos mod period) / period)`, rounded down.
pub open spec fn phase_of(pos: int, period: int) -> int {
    (pos % period) * PHASE_ONE / period
}

/// Bhaskara's rational approximation of `sin(2 pi q / PHASE_ONE)` for
/// `q` in the first half period, scaled to `WAVE_PEAK`.
pub open spec fn half_sine(q: int) -> int {
    (WAVE_PEAK * 32 * (q * (PHASE_ONE - 2 * q))) / (5 * PHASE_ONE * PHASE_ONE - 8 * (q * (
    PHASE_ONE - 2 * q)))
}

/// The level of `waveform` at `phase`: sine; square (low for the first half
/// period, high for the second); triangle (rising from `-WAVE_PEAK` to
/// `WAVE_PEAK` over the first half, falling back over the second).
pub open spec fn wave_level(waveform: Waveform, phase: int) -> int {
    match waveform {
        Waveform::Sine => if phase < PHASE_HALF {
            half_sine(phase)
        } else {
            -half_sine(phase - PHASE_HALF)
        },
        Waveform::Square => if phase < PHASE_HALF {
            -(WAVE_PEAK as int)
        } else {
            WAVE_PEAK as int
        },
        Waveform::Triangle => if phase < PHASE_HALF {
            2 * phase - WAVE_PEAK
        } else {
            3 * WAVE_PEAK - 2 * phase
        },
    }
}

/// The duty for `level` at `volume`: the level scaled by
/// `volume / MAX_VOLUME`, moved from `[-1, 1]` onto `[0, top]`, rounded down.
pub open spec fn duty(level: int, volume: int, top: int) -> int {
    ((WAVE_PEAK * MAX_VOLUME + level * volume) * top) / (2 * WAVE_PEAK * MAX_VOLUME)
}

/// The duty of sample position `pos` of a tone with the given period.
pub open spec fn tone_sample(waveform: Waveform, pos: int, period: int, volume: int, top: int) -> int {
    duty(wave_level(waveform, phase_of(pos, period)), volume, top)
}

/// The `n` duties of a tone that start at sample position `cursor`.
pub open spec fn tone(
    waveform: Waveform,
    cursor: int,
    period: int,
    volume: int,
    top: int,
    n: nat,
) -> Seq<u16> {
    Seq::new(n, |i: int| tone_sample(waveform, cursor + i, period, volume, top) as u16)
}

proof fn lemma_half_sine_bounds(q: int)
    requires
        0 <= q < PHASE_HALF,
    ensures
        0 <= q * (PHASE_ONE - 2 * q) <= PHASE_ONE * PHASE_ONE / 8,
        0 <= half_sine(q) <= WAVE_PEAK,
{
    let v = q * (PHASE_ONE - 2 * q);
    assert(0 <= v) by (nonlinear_arith)
        requires
            0 <= q < PHASE_HALF,
            v == q * (PHASE_ONE - 2 * q),
    ;
    assert(8 * v <= PHASE_ONE * PHASE_ONE) by (nonlinear_arith)
        requires
            v == q * (PHASE_ONE - 2 * q),
    {
        assert((PHASE_ONE - 4 * q) * (PHASE_ONE - 4 * q) >= 0);
    }
    let num = WAVE_PEAK * 32 * v;
    let den = 5 * PHASE_ONE * PHASE_ONE - 8 * v;
    assert(num <= WAVE_PEAK * den) by (nonlinear_arith)
        requires
            8 * v <= PHASE_ONE * PHASE_ONE,
            num == WAVE_PEAK * 32 * v,
            den == 5 * PHASE_ONE * PHASE_ONE - 8 * v,
    ;
    assert(num / den <= WAVE_PEAK) by (nonlinear_arith)
        requires
            0 <= num <= WAVE_PEAK * den,
            den > 0,
    ;
    assert(num / den >= 0) by (nonlinear_arith)
        requires
            0 <= num,
            den > 0,
    ;
}

proof fn lemma_wave_level_bounds(waveform: Waveform, phase: int)
    requires
        0 <= phase < PHASE_ONE,
    ensures
        -WAVE_PEAK <= wave_level(waveform, phase) <= WAVE_PEAK,
{
    if phase < PHASE_HALF {
        lemma_half_sine_bounds(phase);
    } else {
        lemma_half_sine_bounds(phase - PHASE_HALF);
    }
}

proof fn lemma_duty_bounds(level: int, volume: int, top: int)
    requires
        -WAVE_PEAK <= level <= WAVE_PEAK,
        0 <= volume <= MAX_VOLUME,
        0 <= top,
    ensures
        0 <= WAVE_PEAK * MAX_VOLUME + level * volume <= 2 * WAVE_PEAK * MAX_VOLUME,
        0 <= duty(level, volume, top) <= top,
{
    let a = WAVE_PEAK * MAX_VOLUME + level * volume;
    assert(0 <= a <= 2 * WAVE_PEAK * MAX_VOLUME) by (nonlinear_arith)
        requires
            -WAVE_PEAK <= level <= WAVE_PEAK,
            0 <= volume <= MAX_VOLUME,
            a == WAVE_PEAK * MAX_VOLUME + level * volume,
    ;
    let d = 2 * WAVE_PEAK * MAX_VOLUME;
    assert(0 <= (a * top) / d <= top) by (nonlinear_arith)
        requires
            0 <= a <= d,
            d > 0,
            0 <= top,
    {
        assert(a * top <= d * top);
    }
}

impl Waveform {
    /// The level of this waveform at `phase`.
    pub fn sample(&self, phase: u64) -> (r: i64)
        requires
            phase < PHASE_ONE,
        ensures
            r == wave_level(*self, phase as int),
            -WAVE_PEAK <= r <= WAVE_PEAK,
    {
        proof {
            lemma_wave_level_bounds(*self, phase as int);
        }
        match self {
            Waveform::Sine => {
                let (q, negative) = if phase < PHASE_HALF {
                    (phase, false)
                } else {
                    (phase - PHASE_HALF, true)
                };
                proof {
                    lemma_half_sine_bounds(q as int);
                }
                let v: u64 = q * (PHASE_ONE - 2 * q);
                let num: u64 = WAVE_PEAK * 32 * v;
                let den: u64 = 5 * PHASE_ONE * PHASE_ONE - 8 * v;
                let level = (num / den) as i64;
                if negative {
                    -level
                } else {
                    level
                }
            },
            Waveform::Square => {
                if phase < PHASE_HALF {
                    -(WAVE_PEAK as i64)
                } else {
                    WAVE_PEAK as i64
                }
            },
            Waveform::Triangle => {
                if phase < PHASE_HALF {
                    2 * phase as i64 - WAVE_PEAK as i64
                } else {
                    3 * WAVE_PEAK as i64 - 2 * phase as i64
                }
            },
        }
    }
}

/// The duty for `level` at `volume`, on a counter that runs up to `top`.
pub fn duty_of(level: i64, volume: u8, top: u16) -> (r: u16)
    requires
        -WAVE_PEAK <= level <= WAVE_PEAK,
        volume <= MAX_VOLUME,
    ensures
        r == duty(level as int, volume as int, top as int),
        r <= top,
{
    proof {
        lemma_duty_bounds(level as int, volume as int, top as int);
    }
    let a = (WAVE_PEAK * MAX_VOLUME as u64) as i64 + level * volume as i64;
    assert(a as u64 * top as u64 <= 2 * WAVE_PEAK * MAX_VOLUME * 0xFFFF) by (nonlinear_arith)
        requires
            0 <= a <= 2 * WAVE_PEAK * MAX_VOLUME,
            top <= 0xFFFF,
    ;
    let scaled: u64 = a as u64 * top as u64;
    (scaled / (2 * WAVE_PEAK * MAX_VOLUME as u64)) as u16
}

/// Phase of sample position `pos` (already reduced below `period`).
fn phase_at(pos: usize, period: usize) -> (r: u64)
    requires
        pos < period,
    ensures
        r == phase_of(pos as int, period as int),
        r < PHASE_ONE,
{
    assert(pos % period == pos) by {
        vstd::arithmetic::div_mod::lemma_small_mod(pos as nat, period as nat);
    }
    assert((pos as int) * PHASE_ONE / (period as int) < PHASE_ONE) by (nonlinear_arith)
        requires
            pos < period,
    {
        assert((pos as int) * PHASE_ONE < (period as int) * PHASE_ONE);
    }
    ((pos as u128 * PHASE_ONE as u128) / period as u128) as u64
}

/// Filling a buffer of `n1` samples and then one of `n2` samples from the
/// cursor that the first fill returned gives the duties of a single fill of
/// `n1 + n2` samples, and ends on the same cursor.
pub proof fn lemma_fill_composes(
    waveform: Waveform,
    cursor: int,
    period: int,
    volume: int,
    top: int,
    n1: nat,
    n2: nat,
)
    requires
        cursor >= 0,
        period > 0,
    ensures
        tone(waveform, cursor, period, volume, top, n1) + tone(
            waveform,
            (cursor + n1) % period,
            period,
            volume,
            top,
            n2,
        ) == tone(waveform, cursor, period, volume, top, n1 + n2),
        ((cursor + n1) % period + n2) % period == (cursor + n1 + n2) % period,
{
    let c2 = (cursor + n1) % period;
    let a = tone(waveform, cursor, period, volume, top, n1);
    let b = tone(waveform, c2, period, volume, top, n2);
    let whole = tone(waveform, cursor, period, volume, top, n1 + n2);
    assert forall|i: int| 0 <= i < n2 implies #[trigger] b[i] == whole[n1 + i] by {
        vstd::arithmetic::div_mod::lemma_add_mod_noop_right(i, cursor + n1, period);
        assert((c2 + i) % period == (cursor + n1 + i) % period);
    }
    assert(a + b =~= whole);
    vstd::arithmetic::div_mod::lemma_add_mod_noop_right(n2 as int, cursor + n1, period);
}

proof fn lemma_mod_step(x: int, p: int)
    requires
        0 <= x,
        0 < p,
    ensures
        (x + 1) % p == if x % p + 1 == p {
            0
        } else {
            x % p + 1
        },
{
    vstd::arithmetic::div_mod::lemma_fundamental_div_mod(x, p);
    vstd::arithmetic::div_mod::lemma_fundamental_div_mod(x + 1, p);
    vstd::arithmetic::div_mod::lemma_mod_bound(x, p);
    if x % p + 1 == p {
        vstd::arithmetic::div_mod::lemma_mod_multiples_basic(x / p + 1, p);
        assert(x + 1 == (x / p + 1) * p) by (nonlinear_arith)
            requires
                x == p * (x / p) + x % p,
                x % p + 1 == p,
        ;
    } else {
        vstd::arithmetic::div_mod::lemma_mod_add_multiples_vanish(x % p + 1, p);
        vstd::arithmetic::div_mod::lemma_mod_multiples_vanish(x / p, x % p + 1, p);
        vstd::arithmetic::div_mod::lemma_small_mod((x % p + 1) as nat, p as nat);
        assert(x + 1 == p * (x / p) + (x % p + 1));
        assert((p * (x / p) + (x % p + 1)) % p == (x % p + 1) % p);
    }
}

/// Fills `buffer` with a tone of `waveform` that starts at sample position
/// `cursor`, and returns the position that follows the buffer, reduced
/// modulo `period`, so that the next buffer continues the same wave.
pub fn fill(
    buffer: &mut [u16],
    waveform: Waveform,
    cursor: usize,
    period: usize,
    volume: u8,
    top: u16,
) -> (r: usize)
    requires
        period > 0,
        volume <= MAX_VOLUME,
    ensures
        final(buffer)@ == tone(
            waveform,
            cursor as int,
            period as int,
            volume as int,
            top as int,
            old(buffer)@.len(),
        ),
        r == (cursor + old(buffer)@.len()) % (period as int),
{
    let n = buffer.len();
    let ghost start = buffer@;
    let mut pos: usize = cursor % period;
    let mut i: usize = 0;
    while i < n
        invariant
            n == buffer@.len(),
            n == start.len(),
            period > 0,
            volume <= MAX_VOLUME,
            i <= n,
            pos == (cursor + i) % (period as int),
            forall|k: int|
                0 <= k < i ==> buffer@[k] == tone_sample(
                    waveform,
                    cursor + k,
                    period as int,
                    volume as int,
                    top as int,
                ) as u16,
        decreases n - i,
    {
        let phase = phase_at(pos, period);
        let level = waveform.sample(phase);
        let d = duty_of(level, volume, top);
        assert(phase_of(pos as int, period as int) == phase_of(cursor + i, period as int)) by {
            vstd::arithmetic::div_mod::lemma_mod_twice((cursor + i) as int, period as int);
        }
        buffer[i] = d;
        proof {
            lemma_mod_step(cursor + i, period as int);
        }
        pos = if pos + 1 == period {
            0
        } else {
            pos + 1
        };
        i = i + 1;
    }
    assert(buffer@ =~= tone(waveform, cursor as int, period as int, volume as int, top as int, n as nat));
    pos
}

/// `n` silent duties.
pub open spec fn silence(n: nat) -> Seq<u16> {
    Seq::new(n, |i: int| SILENT_DUTY)
}

/// Fills `buffer` with the silent duty.
pub fn fill_silence(buffer: &mut [u16])
    ensures
        final(buffer)@ == silence(old(buffer)@.len()),
{
    let n = buffer.len();
    let mut i: usize = 0;
    while i < n
        invariant
            n == buffer@.len(),
            i <= n,
            forall|k: int| 0 <= k < i ==> buffer@[k] == SILENT_DUTY,
        decreases n - i,
    {
        buffer[i] = SILENT_DUTY;
        i = i + 1;
    }
    assert(buffer@ =~= silence(n as nat));
}

} // verus!
