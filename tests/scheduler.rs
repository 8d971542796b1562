use microbit_audio::midi::{LoadError, Midi, MidiEvent, NextMidiEvent, TrackMessage, MAX_TRACKS};

// Header chunk: format 1, two tracks, 96 ticks per beat.
// Track 0: note-on key 60 on channel 0 at tick 0, note-off at tick 10.
// Track 1: note-on key 64 on channel 1 at tick 5.
const SCENARIO_A: &[u8] = &[
    b'M', b'T', b'h', b'd', 0, 0, 0, 6, 0, 1, 0, 2, 0, 96, //
    b'M', b'T', b'r', b'k', 0, 0, 0, 12, //
    0x00, 0x90, 60, 100, //
    0x0A, 0x80, 60, 64, //
    0x00, 0xFF, 0x2F, 0x00, //
    b'M', b'T', b'r', b'k', 0, 0, 0, 8, //
    0x05, 0x91, 64, 100, //
    0x00, 0xFF, 0x2F, 0x00,
];

// Two tracks whose notes fall on the same tick (5), the later track first
// in the file order of channels; a note-on with velocity zero on track 0.
const TIE: &[u8] = &[
    b'M', b'T', b'h', b'd', 0, 0, 0, 6, 0, 1, 0, 2, 0, 96, //
    b'M', b'T', b'r', b'k', 0, 0, 0, 8, //
    0x05, 0x92, 70, 90, //
    0x03, 0x92, 70, 0, //
    b'M', b'T', b'r', b'k', 0, 0, 0, 4, //
    0x05, 0x93, 72, 80,
];

// Timecode timing: 25 frames per second, 40 ticks per frame.
const TIMECODE: &[u8] = &[
    b'M', b'T', b'h', b'd', 0, 0, 0, 6, 0, 0, 0, 1, 0xE7, 40, //
    b'M', b'T', b'r', b'k', 0, 0, 0, 4, //
    0x00, 0xFF, 0x2F, 0x00,
];

const NOT_MIDI: &[u8] = b"RIFX this is not a midi file";

// Nine tracks, track i holding one note-on of key 40 + i on channel 0 at tick i.
const NINE_TRACKS: &[u8] = &[
    b'M', b'T', b'h', b'd', 0, 0, 0, 6, 0, 1, 0, 9, 0, 96, //
    b'M', b'T', b'r', b'k', 0, 0, 0, 4, 0, 0x90, 40, 1, //
    b'M', b'T', b'r', b'k', 0, 0, 0, 4, 1, 0x90, 41, 1, //
    b'M', b'T', b'r', b'k', 0, 0, 0, 4, 2, 0x90, 42, 1, //
    b'M', b'T', b'r', b'k', 0, 0, 0, 4, 3, 0x90, 43, 1, //
    b'M', b'T', b'r', b'k', 0, 0, 0, 4, 4, 0x90, 44, 1, //
    b'M', b'T', b'r', b'k', 0, 0, 0, 4, 5, 0x90, 45, 1, //
    b'M', b'T', b'r', b'k', 0, 0, 0, 4, 6, 0x90, 46, 1, //
    b'M', b'T', b'r', b'k', 0, 0, 0, 4, 7, 0x90, 47, 1, //
    b'M', b'T', b'r', b'k', 0, 0, 0, 4, 8, 0x90, 48, 1,
];

#[test]
fn scenario_a_events_come_in_order() {
    let mut midi = Midi::load(SCENARIO_A).unwrap();
    assert_eq!(midi.ticks_per_sec(), 96);
    assert_eq!(midi.next_midi_event(0), NextMidiEvent::Event(0, MidiEvent::NoteOn(60, 100)));
    assert_eq!(midi.next_midi_event(0), NextMidiEvent::Pending);
    assert_eq!(midi.next_midi_event(5), NextMidiEvent::Event(1, MidiEvent::NoteOn(64, 100)));
    assert_eq!(midi.next_midi_event(5), NextMidiEvent::Pending);
    assert_eq!(midi.next_midi_event(10), NextMidiEvent::Event(0, MidiEvent::NoteOff(60)));
    assert_eq!(midi.next_midi_event(10), NextMidiEvent::Finished);
}

#[test]
fn pending_until_the_tick_is_reached() {
    let mut midi = Midi::load(SCENARIO_A).unwrap();
    assert_eq!(midi.next_midi_event(0), NextMidiEvent::Event(0, MidiEvent::NoteOn(60, 100)));
    for t in 0..5 {
        assert_eq!(midi.next_midi_event(t), NextMidiEvent::Pending);
    }
    assert_eq!(midi.next_midi_event(7), NextMidiEvent::Event(1, MidiEvent::NoteOn(64, 100)));
    assert_eq!(midi.next_midi_event(9), NextMidiEvent::Pending);
}

#[test]
fn finished_stays_finished() {
    let mut midi = Midi::load(SCENARIO_A).unwrap();
    let mut seen = 0;
    loop {
        match midi.next_midi_event(1000) {
            NextMidiEvent::Event(..) => seen += 1,
            NextMidiEvent::Pending => panic!("nothing is due after tick 1000"),
            NextMidiEvent::Finished => break,
        }
    }
    assert_eq!(seen, 3);
    for t in [0, 10, 1000, u32::MAX] {
        assert_eq!(midi.next_midi_event(t), NextMidiEvent::Finished);
    }
}

#[test]
fn catching_up_many_ticks_at_once_keeps_the_order() {
    let mut midi = Midi::load(SCENARIO_A).unwrap();
    assert_eq!(midi.next_midi_event(100), NextMidiEvent::Event(0, MidiEvent::NoteOn(60, 100)));
    assert_eq!(midi.next_midi_event(100), NextMidiEvent::Event(1, MidiEvent::NoteOn(64, 100)));
    assert_eq!(midi.next_midi_event(100), NextMidiEvent::Event(0, MidiEvent::NoteOff(60)));
    assert_eq!(midi.next_midi_event(100), NextMidiEvent::Finished);
}

#[test]
fn next_event_reports_track_and_absolute_tick() {
    let mut midi = Midi::load(SCENARIO_A).unwrap();
    let order: Vec<(usize, u64)> = std::iter::from_fn(|| midi.next_event().map(|(t, k, _)| (t, k))).collect();
    // Both end-of-track events are included; ties go to the lower track.
    assert_eq!(order, vec![(0, 0), (1, 5), (1, 5), (0, 10), (0, 10)]);
    for w in order.windows(2) {
        assert!(w[0].1 < w[1].1 || (w[0].1 == w[1].1 && w[0].0 <= w[1].0));
    }
}

#[test]
fn equal_ticks_go_to_the_lowest_track() {
    let mut midi = Midi::load(TIE).unwrap();
    assert_eq!(midi.next_midi_event(4), NextMidiEvent::Pending);
    assert_eq!(midi.next_midi_event(5), NextMidiEvent::Event(2, MidiEvent::NoteOn(70, 90)));
    assert_eq!(midi.next_midi_event(5), NextMidiEvent::Event(3, MidiEvent::NoteOn(72, 80)));
    assert_eq!(midi.next_midi_event(5), NextMidiEvent::Pending);
}

#[test]
fn note_on_with_zero_velocity_is_a_note_off() {
    let mut midi = Midi::load(TIE).unwrap();
    assert_eq!(midi.next_midi_event(5), NextMidiEvent::Event(2, MidiEvent::NoteOn(70, 90)));
    assert_eq!(midi.next_midi_event(5), NextMidiEvent::Event(3, MidiEvent::NoteOn(72, 80)));
    assert_eq!(midi.next_midi_event(8), NextMidiEvent::Event(2, MidiEvent::NoteOff(70)));
    assert_eq!(midi.next_midi_event(8), NextMidiEvent::Finished);
}

#[test]
fn raw_messages_keep_channel_key_and_velocity() {
    let mut midi = Midi::load(TIE).unwrap();
    assert_eq!(midi.next_event(), Some((0, 5, TrackMessage::NoteOn { channel: 2, key: 70, vel: 90 })));
    assert_eq!(midi.next_event(), Some((1, 5, TrackMessage::NoteOn { channel: 3, key: 72, vel: 80 })));
    assert_eq!(midi.next_event(), Some((0, 8, TrackMessage::NoteOn { channel: 2, key: 70, vel: 0 })));
    assert_eq!(midi.next_event(), None);
}

#[test]
fn timecode_tick_rate_is_frames_times_subframes() {
    let mut midi = Midi::load(TIMECODE).unwrap();
    assert_eq!(midi.ticks_per_sec(), 1000);
    assert_eq!(midi.next_event(), Some((0, 0, TrackMessage::Other)));
    assert_eq!(midi.next_midi_event(0), NextMidiEvent::Finished);
}

#[test]
fn malformed_bytes_are_rejected() {
    assert!(matches!(Midi::load(NOT_MIDI), Err(LoadError::Malformed)));
    assert!(matches!(Midi::load(&[]), Err(LoadError::Malformed)));
}

#[test]
fn tracks_beyond_the_maximum_are_ignored() {
    assert_eq!(MAX_TRACKS, 8);
    let mut midi = Midi::load(NINE_TRACKS).unwrap();
    let mut keys = Vec::new();
    loop {
        match midi.next_midi_event(100) {
            NextMidiEvent::Event(0, MidiEvent::NoteOn(key, _)) => keys.push(key),
            NextMidiEvent::Finished => break,
            other => panic!("unexpected {:?}", other),
        }
    }
    assert_eq!(keys, vec![40, 41, 42, 43, 44, 45, 46, 47]);
}
