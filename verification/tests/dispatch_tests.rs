use std::sync::Arc;

use drumkit::AudioCommand;
use drumkit::DispatchOutcome;
use drumkit::KitBuilder;
use drumkit::MAX_POLYPHONY;
use drumkit::VoiceMixer;
use drumkit::choke_fade_frames;
use drumkit::command_channel;
use drumkit::default_mapping;
use drumkit::dispatch_message;
use drumkit::recv_command;

type Pcm = Arc<Vec<f32>>;

fn pcm(value: f32, len: usize) -> Pcm {
    Arc::new(vec![value; len])
}

#[test]
fn note_on_selects_layer_and_cycles_round_robins() {
    // A synthetic kit with note 38 holding variants v1_rr1, v1_rr2, v2_rr1,
    // v2_rr2; note-on at velocity 100 lands on layer 2 of 2 every time, and
    // the round-robins alternate rr1, rr2, rr1.
    let mut builder: KitBuilder<Pcm> = KitBuilder::new("synthetic".to_string());
    builder
        .add_sample(38, Some(1), Some(1), pcm(11.0, 8), 8, 44100, 2)
        .unwrap();
    builder
        .add_sample(38, Some(1), Some(2), pcm(12.0, 8), 8, 44100, 2)
        .unwrap();
    builder
        .add_sample(38, Some(2), Some(1), pcm(21.0, 8), 8, 44100, 2)
        .unwrap();
    builder
        .add_sample(38, Some(2), Some(2), pcm(22.0, 8), 8, 44100, 2)
        .unwrap();
    let kit = builder.finish().unwrap();
    let mapping = default_mapping();

    let (mut producer, mut consumer) = command_channel::<Pcm>(16);
    let mut picked: Vec<f32> = Vec::new();
    for _ in 0..3 {
        let outcome = dispatch_message(
            &[0x90, 38, 100],
            &mut producer,
            &kit.notes,
            &mapping,
            2998,
            3748,
        );
        assert_eq!(
            outcome,
            DispatchOutcome::Hit {
                note: 38,
                velocity: 100,
            }
        );
        match recv_command(&mut consumer).unwrap() {
            AudioCommand::Trigger { samples, note, .. } => {
                assert_eq!(note, 38);
                picked.push(samples[0]);
            }
            _ => panic!("expected a trigger"),
        }
        assert!(recv_command(&mut consumer).is_none());
    }
    assert_eq!(picked, vec![21.0, 22.0, 21.0]);
}

#[test]
fn closed_hihat_chokes_open_hihat_ahead_of_its_trigger() {
    // Note 42 (closed hi-hat) and 46 (open hi-hat) loaded; the default
    // mapping chokes 46 (and 23, 21) when 42 is struck.
    let sample_rate = 44100;
    let channels = 2u16;
    let fade = choke_fade_frames(sample_rate);
    let long = (sample_rate as usize) * 2;

    let mut builder: KitBuilder<Pcm> = KitBuilder::new("hats".to_string());
    builder
        .add_sample(42, None, None, pcm(0.25, long), long, sample_rate, channels)
        .unwrap();
    builder
        .add_sample(46, None, None, pcm(0.5, long), long, sample_rate, channels)
        .unwrap();
    let kit = builder.finish().unwrap();
    let mapping = default_mapping();

    let (mut producer, mut consumer) = command_channel::<Pcm>(128);
    let mut mixer: VoiceMixer<Pcm> = VoiceMixer::new(MAX_POLYPHONY);

    // The open hi-hat is ringing.
    dispatch_message(
        &[0x90, 46, 110],
        &mut producer,
        &kit.notes,
        &mapping,
        fade,
        fade,
    );
    mixer.drain(&mut consumer);
    assert_eq!(mixer.voice_count(), 1);
    assert_eq!(mixer.voice(0).note, 46);

    // Striking the closed hi-hat queues Choke(46) ahead of Trigger(42) in
    // the same drain cycle.
    dispatch_message(
        &[0x90, 42, 110],
        &mut producer,
        &kit.notes,
        &mapping,
        fade,
        fade,
    );
    mixer.drain(&mut consumer);
    assert_eq!(mixer.voice_count(), 2);
    assert!(mixer.voice(0).fade.is_some(), "open hi-hat voice is fading");
    assert!(mixer.voice(1).fade.is_none(), "new closed hi-hat voice is not");

    // After one fade duration's worth of buffers the note-46 voice is gone.
    let frames_per_buffer = 64;
    let buffers = fade / frames_per_buffer + 2;
    for _ in 0..buffers {
        mixer.drain(&mut consumer);
        let n = mixer.voice_count();
        for v in 0..n {
            for _ in 0..frames_per_buffer {
                if mixer.step_voice(v, channels as usize).is_none() {
                    break;
                }
            }
        }
        mixer.remove_finished();
    }
    for v in 0..mixer.voice_count() {
        assert_ne!(mixer.voice(v).note, 46, "the choked voice must be gone");
    }
    assert!(mixer.voice_count() >= 1, "the closed hi-hat still plays");
}

#[test]
fn choke_commands_precede_trigger_in_queue() {
    let sample_rate = 44100;
    let fade = choke_fade_frames(sample_rate);
    let mut builder: KitBuilder<Pcm> = KitBuilder::new("hats".to_string());
    builder
        .add_sample(42, None, None, pcm(0.25, 8), 8, sample_rate, 2)
        .unwrap();
    let kit = builder.finish().unwrap();
    let mapping = default_mapping();

    let (mut producer, mut consumer) = command_channel::<Pcm>(128);
    dispatch_message(&[0x90, 42, 99], &mut producer, &kit.notes, &mapping, fade, fade);

    // The default mapping chokes 46, 23 and 21 on a closed hi-hat hit.
    for expected in [46u8, 23, 21] {
        match recv_command(&mut consumer).unwrap() {
            AudioCommand::Choke { note, fade_frames } => {
                assert_eq!(note, expected);
                assert_eq!(fade_frames, fade);
            }
            _ => panic!("expected the chokes first"),
        }
    }
    match recv_command(&mut consumer).unwrap() {
        AudioCommand::Trigger { note, gain, .. } => {
            assert_eq!(note, 42);
            assert!((gain.num as f32 / gain.den as f32 - 99.0 / 127.0).abs() < f32::EPSILON);
        }
        _ => panic!("expected the trigger last"),
    }
    assert!(recv_command(&mut consumer).is_none());
}

#[test]
fn full_pressure_aftertouch_chokes_its_note() {
    let mut builder: KitBuilder<Pcm> = KitBuilder::new("kit".to_string());
    builder
        .add_sample(49, None, None, pcm(0.5, 8), 8, 44100, 2)
        .unwrap();
    let kit = builder.finish().unwrap();
    let mapping = default_mapping();

    let (mut producer, mut consumer) = command_channel::<Pcm>(16);
    let outcome = dispatch_message(
        &[0xA0, 49, 127],
        &mut producer,
        &kit.notes,
        &mapping,
        2998,
        3748,
    );
    assert_eq!(outcome, DispatchOutcome::CymbalChoke { note: 49 });
    match recv_command(&mut consumer).unwrap() {
        AudioCommand::Choke { note, fade_frames } => {
            assert_eq!(note, 49);
            assert_eq!(fade_frames, 3748);
        }
        _ => panic!("expected a choke"),
    }
    assert!(recv_command(&mut consumer).is_none());

    // Partial pressure does nothing.
    let outcome = dispatch_message(
        &[0xA0, 49, 90],
        &mut producer,
        &kit.notes,
        &mapping,
        2998,
        3748,
    );
    assert_eq!(outcome, DispatchOutcome::Ignored);
    assert!(recv_command(&mut consumer).is_none());
}

#[test]
fn unmapped_note_produces_no_trigger() {
    let mut builder: KitBuilder<Pcm> = KitBuilder::new("kit".to_string());
    builder
        .add_sample(36, None, None, pcm(0.5, 8), 8, 44100, 2)
        .unwrap();
    let kit = builder.finish().unwrap();
    let mapping = default_mapping();

    let (mut producer, mut consumer) = command_channel::<Pcm>(16);
    let outcome = dispatch_message(
        &[0x90, 60, 100],
        &mut producer,
        &kit.notes,
        &mapping,
        2998,
        3748,
    );
    assert_eq!(
        outcome,
        DispatchOutcome::Hit {
            note: 60,
            velocity: 100,
        }
    );
    assert!(recv_command(&mut consumer).is_none());
}

#[test]
fn realtime_and_note_off_are_ignored() {
    let mut builder: KitBuilder<Pcm> = KitBuilder::new("kit".to_string());
    builder
        .add_sample(36, None, None, pcm(0.5, 8), 8, 44100, 2)
        .unwrap();
    let kit = builder.finish().unwrap();
    let mapping = default_mapping();

    let (mut producer, mut consumer) = command_channel::<Pcm>(16);
    for bytes in [vec![0xF8u8], vec![0x80, 36, 10], vec![0xB0, 4, 64]] {
        let outcome = dispatch_message(
            &bytes,
            &mut producer,
            &kit.notes,
            &mapping,
            2998,
            3748,
        );
        assert_eq!(outcome, DispatchOutcome::Ignored);
    }
    assert!(recv_command(&mut consumer).is_none());
}

#[test]
fn fade_frame_counts_follow_sample_rate() {
    assert_eq!(choke_fade_frames(44100), 2998);
    assert_eq!(drumkit::aftertouch_fade_frames(44100), 3748);
    assert_eq!(choke_fade_frames(48000), 3264);
}
