use microbit_audio::beeper::{self, beeper, pcm_duty_of, Beeper, BUF_LEN};
use microbit_audio::pcm_player::{self, countertop, play, ButtonFunction, PcmSettings};
use microbit_audio::pipeline::BufferState;

#[test]
fn pcm_duty_exact_values() {
    assert_eq!(pcm_duty_of(0, 1035), 0);
    assert_eq!(pcm_duty_of(255, 1035), 1035);
    assert_eq!(pcm_duty_of(51, 1035), 207);
    assert_eq!(pcm_duty_of(128, 262), 131);
}

#[test]
fn beeper_fill_samples_wraps_round() {
    let data = [0u8, 255, 51];
    let mut buf = [9u16; 7];
    let next = beeper::fill_samples(&mut buf, &data, 1);
    assert_eq!(buf, [1035, 207, 0, 1035, 207, 0, 1035]);
    assert_eq!(next, 2);
}

#[test]
fn beeper_starts_with_both_buffers_filled() {
    let data: Vec<u8> = (0..=255u8).collect();
    let b: Beeper = beeper(&data);
    assert_eq!(b.buffers().state_of(0), BufferState::Streaming);
    assert_eq!(b.buffers().state_of(1), BufferState::Filling);
    assert_eq!(b.buffers().buffer(0)[0], 0);
    assert_eq!(b.buffers().buffer(0)[255], 1035);
    // Buffer 1 continues where buffer 0 stopped: sample 512 % 256 = 0.
    assert_eq!(b.buffers().buffer(1)[1], pcm_duty_of(1, beeper::PWM_COUNTERTOP));
    assert_eq!(b.cursor(), (2 * BUF_LEN) % 256);
}

#[test]
fn beeper_refills_after_completion() {
    let data = [10u8, 20, 30];
    let mut b = beeper(&data);
    assert_eq!(b.sequence_end(0), 1);
    b.fill_next_buffer(0, &data);
    // 1024 samples of a 3-sample loop have been played: 1024 % 3 = 1.
    assert_eq!(b.buffers().buffer(0)[0], pcm_duty_of(20, beeper::PWM_COUNTERTOP));
    assert_eq!(b.cursor(), (3 * BUF_LEN) % 3);
}

#[test]
fn countertop_follows_rate_and_refresh() {
    let s = PcmSettings { target_sample_rate: 16000, refresh: 3 };
    assert_eq!(countertop(&s), Some(262));
    let s = PcmSettings { target_sample_rate: 2700, refresh: 5 };
    assert_eq!(countertop(&s), Some(1035));
    let s = PcmSettings { target_sample_rate: 0, refresh: 5 };
    assert_eq!(countertop(&s), None);
    // Too fast a clock for 16 bits: the register keeps the low 16 bits.
    let s = PcmSettings { target_sample_rate: 1, refresh: 0 };
    assert_eq!(countertop(&s), Some((16777216u32 % 65536) as u16));
}

#[test]
fn buttons_tune_settings() {
    let mut s = PcmSettings { target_sample_rate: 16000, refresh: 3 };
    ButtonFunction::TargetSampleRate.up(&mut s);
    assert_eq!(s, PcmSettings { target_sample_rate: 16100, refresh: 3 });
    ButtonFunction::PwmRefresh.down(&mut s);
    assert_eq!(s, PcmSettings { target_sample_rate: 16100, refresh: 2 });
    ButtonFunction::PwmRefresh.up(&mut s);
    ButtonFunction::TargetSampleRate.down(&mut s);
    ButtonFunction::TargetSampleRate.down(&mut s);
    assert_eq!(s, PcmSettings { target_sample_rate: 15900, refresh: 3 });
    let mut z = PcmSettings { target_sample_rate: 50, refresh: 0 };
    ButtonFunction::PwmRefresh.down(&mut z);
    assert_eq!(z.refresh, u32::MAX);
    ButtonFunction::TargetSampleRate.down(&mut z);
    assert_eq!(z.target_sample_rate, u32::MAX - 49);
}

#[test]
fn resampling_fill_skips_samples() {
    let data: Vec<u8> = (0..10u8).map(|x| x * 25).collect();
    let mut buf = [0u16; 6];
    // 16000 Hz data played at 8000 Hz: every second sample.
    let next = pcm_player::fill_samples(&mut buf, &data, 3, 8000, 255);
    assert_eq!(buf, [75, 125, 175, 225, 25, 75]);
    assert_eq!(next, 5);
    // Played at 32000 Hz: each sample twice.
    let next = pcm_player::fill_samples(&mut buf, &data, 0, 32000, 255);
    assert_eq!(buf, [0, 0, 25, 25, 50, 50]);
    assert_eq!(next, 3);
}

#[test]
fn pcm_player_starts_and_tunes() {
    let data: Vec<u8> = (0..100u8).collect();
    let mut p = play(&data);
    assert_eq!(p.countertop(), 262);
    assert_eq!(p.buffers().state_of(0), BufferState::Streaming);
    assert_eq!(p.buffers().buffer(0)[99], pcm_duty_of(99, 262));
    assert_eq!(p.buffers().buffer(1)[0], pcm_duty_of(((512 % 100) as u8), 262));
    assert_eq!(p.press(true), Some((16777216u64 / (16100 * 4)) as u16));
    assert_eq!(p.settings(), PcmSettings { target_sample_rate: 16100, refresh: 3 });
    assert_eq!(p.sequence_end(0), 1);
    p.fill_next_buffer(0, &data);
    assert_eq!(p.buffers().state_of(1), BufferState::Streaming);
}
