use microbit_audio::synth::{
    duty_of, fill, fill_silence, key_to_period, Waveform, MAX_VOLUME, PHASE_HALF, SILENT_DUTY,
    WAVE_PEAK,
};
use microbit_audio::tone_generator::{NoteGen, TONE_BUFFER_SIZE, TONE_COUNTER_TOP};

#[test]
fn reference_key_period_at_16000_hz() {
    // 16000 / 261.626 = 61.16 samples.
    assert_eq!(key_to_period(16000, 60), 61);
    assert_eq!(key_to_period(44000, 60), 168);
    assert_eq!(key_to_period(16387, 60), 62);
}

#[test]
fn key_period_exact_values() {
    // 44000 / 440 = 100 samples for key 69.
    assert_eq!(key_to_period(44000, 69), 99);
    assert_eq!(key_to_period(16000, 72), 30);
    assert_eq!(key_to_period(16000, 48), 122);
    assert_eq!(key_to_period(16000, 0), 1956);
}

#[test]
fn one_octave_up_halves_the_period() {
    for rate in [8000u32, 16000, 16387, 44000, 96000] {
        for key in 0u8..=115 {
            assert_eq!(key_to_period(rate, key + 12), key_to_period(rate, key) / 2);
        }
    }
}

#[test]
fn higher_keys_have_shorter_periods() {
    for key in 0u8..127 {
        assert!(key_to_period(44000, key + 1) <= key_to_period(44000, key));
    }
}

#[test]
fn waveform_levels() {
    assert_eq!(Waveform::Square.sample(0), -(WAVE_PEAK as i64));
    assert_eq!(Waveform::Square.sample(PHASE_HALF - 1), -(WAVE_PEAK as i64));
    assert_eq!(Waveform::Square.sample(PHASE_HALF), WAVE_PEAK as i64);
    assert_eq!(Waveform::Triangle.sample(0), -32768);
    assert_eq!(Waveform::Triangle.sample(16384), 0);
    assert_eq!(Waveform::Triangle.sample(32768), 32768);
    assert_eq!(Waveform::Triangle.sample(49152), 0);
    assert_eq!(Waveform::Sine.sample(0), 0);
    assert_eq!(Waveform::Sine.sample(16384), 32768);
    assert_eq!(Waveform::Sine.sample(32768), 0);
    assert_eq!(Waveform::Sine.sample(49152), -32768);
}

#[test]
fn sine_is_close_to_the_true_sine() {
    for phase in (0u64..65536).step_by(97) {
        let exact = (2.0 * std::f64::consts::PI * phase as f64 / 65536.0).sin() * 32768.0;
        let got = Waveform::Sine.sample(phase) as f64;
        assert!((exact - got).abs() < 0.002 * 32768.0, "phase {}: {} vs {}", phase, got, exact);
    }
}

#[test]
fn triangle_is_symmetric_about_half_a_period() {
    for d in 1u64..32768 {
        assert_eq!(Waveform::Triangle.sample(PHASE_HALF - d), Waveform::Triangle.sample(PHASE_HALF + d));
    }
}

#[test]
fn duty_spans_the_counter_range() {
    assert_eq!(duty_of(-32768, MAX_VOLUME, 1023), 0);
    assert_eq!(duty_of(32768, MAX_VOLUME, 1023), 1023);
    assert_eq!(duty_of(0, MAX_VOLUME, 1023), 511);
    assert_eq!(duty_of(32768, 0, 1000), 500);
    // Volume 20 of 127 around the midpoint of a 95 counter.
    assert_eq!(duty_of(32768, 20, 95), 54);
    assert_eq!(duty_of(-32768, 20, 95), 40);
}

#[test]
fn square_buffer_exact_values() {
    let mut buf = [7u16; 8];
    let next = fill(&mut buf, Waveform::Square, 0, 4, MAX_VOLUME, 100);
    assert_eq!(buf, [0, 0, 100, 100, 0, 0, 100, 100]);
    assert_eq!(next, 0);
}

#[test]
fn cursor_advances_modulo_the_period() {
    let mut buf = [0u16; 16];
    assert_eq!(fill(&mut buf, Waveform::Sine, 3, 61, MAX_VOLUME, 1023), 19);
    assert_eq!(fill(&mut buf, Waveform::Sine, 50, 61, MAX_VOLUME, 1023), 5);
    assert_eq!(fill(&mut buf, Waveform::Sine, 1000, 61, MAX_VOLUME, 1023), (1000 + 16) % 61);
}

#[test]
fn two_fills_equal_one_fill_of_twice_the_length() {
    for waveform in [Waveform::Sine, Waveform::Square, Waveform::Triangle] {
        for cursor in [0usize, 17, 60, 200] {
            let mut a = [0u16; 32];
            let mut b = [0u16; 32];
            let mut whole = [0u16; 64];
            let c1 = fill(&mut a, waveform, cursor, 61, MAX_VOLUME, 1023);
            let c2 = fill(&mut b, waveform, c1, 61, MAX_VOLUME, 1023);
            let c = fill(&mut whole, waveform, cursor, 61, MAX_VOLUME, 1023);
            assert_eq!(c1, (cursor + 32) % 61);
            assert_eq!(c2, c);
            assert_eq!(c, (cursor + 64) % 61);
            assert_eq!(&whole[..32], &a[..]);
            assert_eq!(&whole[32..], &b[..]);
        }
    }
}

#[test]
fn reference_key_sine_repeats_after_its_period() {
    let period = key_to_period(16000, 60);
    assert_eq!(period, 61);
    let mut buf = vec![0u16; 3 * period];
    fill(&mut buf, Waveform::Sine, 0, period, MAX_VOLUME, 1000);
    for i in 0..2 * period {
        assert_eq!(buf[i], buf[i + period]);
    }
    // It does not repeat any sooner.
    assert!((1..period).all(|shift| (0..period).any(|i| buf[i] != buf[i + shift])));
}

#[test]
fn silence_fills_the_neutral_duty() {
    let mut buf = [123u16; 10];
    fill_silence(&mut buf);
    assert!(buf.iter().all(|&d| d == SILENT_DUTY));
}

#[test]
fn note_generator_starts_on_middle_c() {
    let g = NoteGen::new();
    assert_eq!(g.note(), 60);
    assert_eq!(g.period(), 168);
    assert!(g.buffers().buffer(0).iter().all(|&d| d == 0));
}

#[test]
fn note_generator_fills_continuous_sine() {
    let mut g = NoteGen::new();
    g.set_note(69);
    assert_eq!(g.period(), 99);
    assert_eq!(g.start_sequence(), 0);
    let mut expected = vec![0u16; 2 * TONE_BUFFER_SIZE];
    fill(&mut expected, Waveform::Sine, 0, 99, 20, TONE_COUNTER_TOP);
    assert_eq!(g.buffers().buffer(0), &expected[..TONE_BUFFER_SIZE]);
    assert_eq!(g.buffers().buffer(1), &expected[TONE_BUFFER_SIZE..]);
    // Volume 20 keeps the duties near the middle of the counter.
    assert!(g.buffers().buffer(0).iter().all(|&d| (40..=54).contains(&d)));
}

#[test]
fn note_generator_buttons_saturate() {
    let mut g = NoteGen::new();
    g.raise_note();
    assert_eq!(g.note(), 61);
    g.lower_note();
    g.lower_note();
    assert_eq!(g.note(), 59);
    g.set_note(255);
    g.raise_note();
    assert_eq!(g.note(), 255);
    g.set_note(0);
    g.lower_note();
    assert_eq!(g.note(), 0);
}

#[test]
fn note_generator_hands_buffers_back_and_forth() {
    let mut g = NoteGen::new();
    assert_eq!(g.start_sequence(), 0);
    assert_eq!(g.sequence_end(0), 1);
    g.fill_buffer(0);
    assert_eq!(g.sequence_end(1), 0);
    g.fill_buffer(1);
    let mut expected = vec![0u16; 4 * TONE_BUFFER_SIZE];
    fill(&mut expected, Waveform::Sine, 0, 168, 20, TONE_COUNTER_TOP);
    assert_eq!(g.buffers().buffer(0), &expected[2 * TONE_BUFFER_SIZE..3 * TONE_BUFFER_SIZE]);
    assert_eq!(g.buffers().buffer(1), &expected[3 * TONE_BUFFER_SIZE..]);
}
