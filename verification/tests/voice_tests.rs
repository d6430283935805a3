use drumkit::Gain;
use drumkit::Voice;

fn gain_value(g: drumkit::FrameGain) -> f32 {
    (g.num as f32 / g.den as f32) * (g.fade_remaining as f32 / g.fade_total as f32)
}

#[test]
fn voice_is_done_at_end() {
    let samples = vec![0.0_f32; 100];
    let mut voice = Voice::start(samples, 100, Gain { num: 127, den: 127 }, 36);
    voice.position = 100;
    assert!(voice.is_done());
}

#[test]
fn voice_is_not_done_mid_playback() {
    let samples = vec![0.0_f32; 100];
    let mut voice = Voice::start(samples, 100, Gain { num: 127, den: 127 }, 36);
    voice.position = 50;
    assert!(!voice.is_done());
}

#[test]
fn voice_is_done_after_fade() {
    let samples = vec![0.0_f32; 1000];
    let mut voice = Voice::start(samples, 1000, Gain { num: 127, den: 127 }, 46);
    voice.fade = Some(drumkit::Fade {
        remaining_frames: 0,
        total_frames: 100,
    });
    assert!(voice.is_done());
}

#[test]
fn voice_fade_ramps_gain_to_zero() {
    let samples = vec![0.0_f32; 1000];
    let mut voice = Voice::start(samples, 1000, Gain { num: 127, den: 127 }, 46);

    // No fade: full gain.
    assert!((gain_value(voice.frame_gain()) - 1.0).abs() < f32::EPSILON);

    // Start a 4-frame fade.
    voice.start_fade(4);

    // Frame gains ramp down: 4/4, 3/4, 2/4, 1/4, then 0.
    let g1 = gain_value(voice.frame_gain());
    assert!((g1 - 1.0).abs() < f32::EPSILON);
    let g2 = gain_value(voice.frame_gain());
    assert!((g2 - 0.75).abs() < f32::EPSILON);
    let g3 = gain_value(voice.frame_gain());
    assert!((g3 - 0.5).abs() < f32::EPSILON);
    let g4 = gain_value(voice.frame_gain());
    assert!((g4 - 0.25).abs() < f32::EPSILON);
    let g5 = gain_value(voice.frame_gain());
    assert!((g5 - 0.0).abs() < f32::EPSILON);
    assert!(voice.is_done());
}

#[test]
fn shorter_fade_wins() {
    let samples = vec![0.0_f32; 1000];
    let mut voice = Voice::start(samples, 1000, Gain { num: 127, den: 127 }, 46);

    // A long fade is shortened by a shorter request.
    voice.start_fade(100);
    voice.start_fade(10);
    assert_eq!(voice.fade.unwrap().remaining_frames, 10);

    // A longer request never lengthens a running fade.
    voice.start_fade(50);
    assert_eq!(voice.fade.unwrap().remaining_frames, 10);
}

#[test]
fn zero_frame_fade_silences_immediately() {
    let samples = vec![0.0_f32; 1000];
    let mut voice = Voice::start(samples, 1000, Gain { num: 127, den: 127 }, 46);
    voice.start_fade(0);
    assert!(voice.is_done());
    let g = voice.frame_gain();
    assert_eq!(gain_value(g), 0.0);
}

#[test]
fn gain_from_velocity_is_fraction_of_127() {
    let g = Gain::from_velocity(127);
    assert_eq!(g.num, 127);
    assert_eq!(g.den, 127);
    let g = Gain::from_velocity(64);
    assert!((g.num as f32 / g.den as f32 - 64.0 / 127.0).abs() < f32::EPSILON);
}
