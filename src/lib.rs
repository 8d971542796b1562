//! Audio pipeline for a pulse-width-modulated speaker: a multi-track note
//! scheduler fed by a standard MIDI file, a voice table, integer waveform
//! synthesis, and the double-buffer hand-off to the pulse generator.
pub mod beeper;
pub mod midi;
pub mod pcm_player;
pub mod pipeline;
pub mod player;
pub mod synth;
pub mod tone_generator;
pub mod voices;
