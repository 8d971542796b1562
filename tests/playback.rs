use microbit_audio::midi::{LoadError, MidiEvent};
use microbit_audio::pipeline::{BufferState, DoubleBuffer};
use microbit_audio::player::{
    rtc_prescaler, Player, StepOutcome, BUFFER_SIZE, PWM_COUNTERTOP, SAMPLE_RATE,
};
use microbit_audio::synth::{fill, key_to_period, Waveform, MAX_VOLUME, SILENT_DUTY};
use microbit_audio::voices::VoiceTable;

const SCENARIO_A: &[u8] = &[
    b'M', b'T', b'h', b'd', 0, 0, 0, 6, 0, 1, 0, 2, 0, 96, //
    b'M', b'T', b'r', b'k', 0, 0, 0, 12, //
    0x00, 0x90, 60, 100, //
    0x0A, 0x80, 60, 64, //
    0x00, 0xFF, 0x2F, 0x00, //
    b'M', b'T', b'r', b'k', 0, 0, 0, 8, //
    0x05, 0x91, 64, 100, //
    0x00, 0xFF, 0x2F, 0x00,
];

// One track: a note-on on channel 5 at tick 1.
const BAD_CHANNEL: &[u8] = &[
    b'M', b'T', b'h', b'd', 0, 0, 0, 6, 0, 0, 0, 1, 0, 96, //
    b'M', b'T', b'r', b'k', 0, 0, 0, 4, //
    0x01, 0x95, 60, 100,
];

fn states(b: &DoubleBuffer) -> (BufferState, BufferState) {
    (b.state_of(0), b.state_of(1))
}

fn expected_tone(waveform: Waveform, key: u8, cursor: usize) -> Vec<u16> {
    let period = key_to_period(SAMPLE_RATE, key).max(1);
    let mut buf = vec![0u16; BUFFER_SIZE];
    fill(&mut buf, waveform, cursor, period, MAX_VOLUME, PWM_COUNTERTOP);
    buf
}

#[test]
fn double_buffer_hand_off() {
    let mut b = DoubleBuffer::new(4);
    assert_eq!(states(&b), (BufferState::Filling, BufferState::Filling));
    b.buffer_mut(0).copy_from_slice(&[1, 2, 3, 4]);
    b.buffer_mut(1).copy_from_slice(&[5, 6, 7, 8]);
    b.start(0);
    assert_eq!(states(&b), (BufferState::Streaming, BufferState::Filling));
    // Buffer 0 completes: buffer 1 streams, buffer 0 is refilled.
    assert_eq!(b.sequence_end(0), 1);
    assert_eq!(states(&b), (BufferState::Filling, BufferState::Streaming));
    b.buffer_mut(0).copy_from_slice(&[9, 9, 9, 9]);
    assert_eq!(b.buffer(1), &[5, 6, 7, 8]);
    assert_eq!(b.buffer(0), &[9, 9, 9, 9]);
    assert_eq!(b.sequence_end(1), 0);
    assert_eq!(states(&b), (BufferState::Streaming, BufferState::Filling));
    b.stop();
    b.stop();
    assert_eq!(states(&b), (BufferState::Filling, BufferState::Filling));
}

#[test]
fn completion_of_buffer_zero_keeps_buffer_one_streaming() {
    // Record every ownership change and every write as a harness would.
    let mut log: Vec<String> = Vec::new();
    let mut b = DoubleBuffer::new(3);
    b.buffer_mut(0).copy_from_slice(&[1, 1, 1]);
    b.buffer_mut(1).copy_from_slice(&[2, 2, 2]);
    b.start(0);
    for round in 0..6 {
        let finished = round % 2;
        assert_eq!(b.state_of(finished), BufferState::Streaming);
        let next = b.sequence_end(finished);
        log.push(format!("start {}", next));
        assert_eq!(b.state_of(next), BufferState::Streaming);
        assert_eq!(b.state_of(finished), BufferState::Filling);
        b.buffer_mut(finished).fill(round as u16);
        log.push(format!("refill {}", finished));
        // The streaming buffer is never the one written, and never both stream.
        assert_ne!(b.state_of(finished), BufferState::Streaming);
        assert!(!(b.state_of(0) == BufferState::Streaming && b.state_of(1) == BufferState::Streaming));
    }
    assert_eq!(&log[..4], &["start 1", "refill 0", "start 0", "refill 1"]);
}

#[test]
fn voice_table_note_on_and_off() {
    let mut v = VoiceTable::new();
    assert_eq!(v.highest_key(), None);
    v.note_on(0, 60);
    v.note_on(2, 67);
    v.note_on(3, 64);
    assert_eq!(v.highest_key(), Some(67));
    assert_eq!(v.active_keys(), vec![(0, 60), (2, 67), (3, 64)]);
    v.note_off(2, 67);
    assert_eq!(v.highest_key(), Some(64));
    v.handle_midi_event(3, MidiEvent::NoteOff(64));
    v.handle_midi_event(1, MidiEvent::NoteOn(61, 10));
    assert_eq!(v.active_keys(), vec![(0, 60), (1, 61)]);
    assert_eq!(v.key(1), Some(61));
    v.silence_all();
    assert_eq!(v.active_keys(), vec![]);
}

#[test]
fn voice_table_buttons_start_from_middle_c() {
    let mut v = VoiceTable::new();
    v.raise_key();
    assert_eq!(v.key(0), Some(61));
    let mut w = VoiceTable::new();
    w.lower_key();
    assert_eq!(w.key(0), Some(59));
    w.note_on(0, 0);
    w.lower_key();
    assert_eq!(w.key(0), Some(0));
    w.note_on(0, 255);
    w.raise_key();
    assert_eq!(w.key(0), Some(255));
}

#[test]
fn player_is_silent_before_any_note() {
    let mut p = Player::new(SCENARIO_A, Waveform::Square).unwrap();
    assert_eq!(p.ticks_per_sec(), 96);
    assert_eq!(p.start(), 0);
    assert_eq!(states(p.buffers()), (BufferState::Streaming, BufferState::Filling));
    assert!(p.buffers().buffer(0).iter().all(|&d| d == SILENT_DUTY));
    assert!(p.buffers().buffer(1).iter().all(|&d| d == SILENT_DUTY));
}

#[test]
fn player_end_to_end() {
    let mut p = Player::new(SCENARIO_A, Waveform::Square).unwrap();
    p.start();
    // Tick 1: the note-on due at tick 0 sounds.
    assert_eq!(p.step(), StepOutcome::Playing);
    assert_eq!(p.tick(), 1);
    assert_eq!(p.voices().active_keys(), vec![(0, 60)]);
    assert_eq!(p.handle_pwm(0), 1);
    p.fill_buffer(0);
    assert_eq!(p.buffers().buffer(0), &expected_tone(Waveform::Square, 60, 0)[..]);
    assert_eq!(p.handle_pwm(1), 0);
    p.fill_buffer(1);
    assert_eq!(p.buffers().buffer(1), &expected_tone(Waveform::Square, 60, BUFFER_SIZE)[..]);
    // Ticks 2 to 5: key 64 joins on channel 1 and, being higher, sounds.
    for _ in 2..=5 {
        assert_eq!(p.step(), StepOutcome::Playing);
    }
    assert_eq!(p.voices().active_keys(), vec![(0, 60), (1, 64)]);
    assert_eq!(p.handle_pwm(0), 1);
    p.fill_buffer(0);
    assert_eq!(p.buffers().buffer(0), &expected_tone(Waveform::Square, 64, 0)[..]);
    // Ticks 6 to 9 change nothing; tick 10 ends the file.
    for _ in 6..=9 {
        assert_eq!(p.step(), StepOutcome::Playing);
    }
    assert_eq!(p.step(), StepOutcome::Finished);
    assert_eq!(p.tick(), 10);
    assert_eq!(p.voices().active_keys(), vec![]);
    assert_eq!(states(p.buffers()), (BufferState::Filling, BufferState::Filling));
    assert_eq!(p.step(), StepOutcome::Finished);
    p.fill_buffer(1);
    assert!(p.buffers().buffer(1).iter().all(|&d| d == SILENT_DUTY));
}

#[test]
fn player_buttons_move_channel_zero() {
    let mut p = Player::new(SCENARIO_A, Waveform::Sine).unwrap();
    p.raise_key();
    p.raise_key();
    assert_eq!(p.voices().key(0), Some(62));
    p.lower_key();
    assert_eq!(p.voices().key(0), Some(61));
    p.start();
    assert_eq!(p.buffers().buffer(0), &expected_tone(Waveform::Sine, 61, 0)[..]);
}

#[test]
fn player_reports_out_of_range_channel() {
    let mut p = Player::new(BAD_CHANNEL, Waveform::Sine).unwrap();
    assert_eq!(p.step(), StepOutcome::BadChannel(5));
}

#[test]
fn player_rejects_malformed_file() {
    assert!(matches!(Player::new(b"MThd", Waveform::Sine), Err(LoadError::Malformed)));
}

#[test]
fn tick_timer_prescaler() {
    assert_eq!(rtc_prescaler(288), Some(113));
    assert_eq!(rtc_prescaler(96), Some(340));
    assert_eq!(rtc_prescaler(1), Some(32767));
    assert_eq!(rtc_prescaler(100_000), Some(0));
    assert_eq!(rtc_prescaler(0), None);
}
