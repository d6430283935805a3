use std::sync::Arc;

use drumkit::AudioCommand;
use drumkit::Gain;
use drumkit::MAX_POLYPHONY;
use drumkit::VoiceMixer;
use drumkit::command_channel;
use drumkit::recv_command;
use drumkit::send_command;

fn trigger(samples: Arc<Vec<f32>>, gain: Gain, note: u8) -> AudioCommand<Arc<Vec<f32>>> {
    let sample_len = samples.len();
    AudioCommand::Trigger {
        samples,
        sample_len,
        gain,
        note,
    }
}

#[test]
fn audio_command_is_send() {
    fn assert_send<T: Send>() {}
    assert_send::<AudioCommand<Arc<Vec<f32>>>>();
}

#[test]
fn audio_command_roundtrips_through_rtrb() {
    let (mut producer, mut consumer) = command_channel::<Arc<Vec<f32>>>(4);
    let samples = Arc::new(vec![1.0_f32, 2.0, 3.0]);
    assert!(send_command(
        &mut producer,
        trigger(Arc::clone(&samples), Gain { num: 1, den: 2 }, 38),
    ));

    let cmd = recv_command(&mut consumer).unwrap();
    match cmd {
        AudioCommand::Trigger {
            samples: s,
            sample_len,
            gain,
            note,
        } => {
            assert_eq!(s.len(), 3);
            assert_eq!(sample_len, 3);
            assert!((gain.num as f32 / gain.den as f32 - 0.5).abs() < f32::EPSILON);
            assert_eq!(note, 38);
        }
        _ => panic!("Expected Trigger command"),
    }
}

#[test]
fn choke_command_roundtrips_through_rtrb() {
    let (mut producer, mut consumer) = command_channel::<Arc<Vec<f32>>>(4);
    assert!(send_command(
        &mut producer,
        AudioCommand::Choke {
            note: 46,
            fade_frames: 3000,
        },
    ));

    let cmd = recv_command(&mut consumer).unwrap();
    match cmd {
        AudioCommand::Choke { note, fade_frames } => {
            assert_eq!(note, 46);
            assert_eq!(fade_frames, 3000);
        }
        _ => panic!("Expected Choke command"),
    }
}

#[test]
fn event_protocol_drops_overflow_without_blocking() {
    let (mut producer, mut consumer) = command_channel::<Arc<Vec<f32>>>(4);
    let samples = Arc::new(vec![0.0_f32; 8]);
    // The first `capacity` pushes are accepted; the excess is dropped
    // without an error and without blocking.
    for i in 0..6 {
        let accepted = send_command(
            &mut producer,
            trigger(Arc::clone(&samples), Gain { num: 1, den: 1 }, i as u8),
        );
        assert_eq!(accepted, i < 4, "push {}", i);
    }
    // Exactly the accepted commands come out, oldest first.
    for i in 0..4 {
        match recv_command(&mut consumer).unwrap() {
            AudioCommand::Trigger { note, .. } => assert_eq!(note, i as u8),
            _ => panic!("Expected Trigger command"),
        }
    }
    assert!(recv_command(&mut consumer).is_none());
}

#[test]
fn polyphony_cap_drops_excess_triggers() {
    let mut mixer: VoiceMixer<Arc<Vec<f32>>> = VoiceMixer::new(MAX_POLYPHONY);
    let samples = Arc::new(vec![0.0_f32; 64]);
    for i in 0..MAX_POLYPHONY + 4 {
        mixer.apply_command(trigger(
            Arc::clone(&samples),
            Gain { num: 1, den: 1 },
            i as u8,
        ));
    }
    assert_eq!(mixer.voice_count(), MAX_POLYPHONY);
}

#[test]
fn drain_applies_commands_in_arrival_order() {
    let (mut producer, mut consumer) = command_channel::<Arc<Vec<f32>>>(16);
    let samples = Arc::new(vec![0.0_f32; 64]);
    send_command(
        &mut producer,
        trigger(Arc::clone(&samples), Gain { num: 1, den: 1 }, 36),
    );
    send_command(
        &mut producer,
        trigger(Arc::clone(&samples), Gain { num: 1, den: 1 }, 38),
    );
    send_command(
        &mut producer,
        AudioCommand::Choke {
            note: 36,
            fade_frames: 100,
        },
    );

    let mut mixer: VoiceMixer<Arc<Vec<f32>>> = VoiceMixer::new(MAX_POLYPHONY);
    mixer.drain(&mut consumer);
    assert_eq!(mixer.voice_count(), 2);
    assert_eq!(mixer.voice(0).note, 36);
    assert_eq!(mixer.voice(1).note, 38);
    // The choke landed on the note-36 voice only.
    assert!(mixer.voice(0).fade.is_some());
    assert!(mixer.voice(1).fade.is_none());
}

#[test]
fn step_voice_guards_buffer_end() {
    let mut mixer: VoiceMixer<Arc<Vec<f32>>> = VoiceMixer::new(MAX_POLYPHONY);
    // A 3-sample buffer played with 2 channels: the second frame reads only
    // one sample.
    let samples = Arc::new(vec![0.5_f32, 0.5, 0.5]);
    mixer.apply_command(trigger(Arc::clone(&samples), Gain { num: 1, den: 1 }, 36));

    let step = mixer.step_voice(0, 2).unwrap();
    assert_eq!(step.start, 0);
    assert_eq!(step.read_len, 2);

    let step = mixer.step_voice(0, 2).unwrap();
    assert_eq!(step.start, 2);
    assert_eq!(step.read_len, 1);

    assert!(mixer.step_voice(0, 2).is_none());
    mixer.remove_finished();
    assert_eq!(mixer.voice_count(), 0);
}

#[test]
fn remove_finished_keeps_live_voices_in_order() {
    let mut mixer: VoiceMixer<Arc<Vec<f32>>> = VoiceMixer::new(MAX_POLYPHONY);
    let short = Arc::new(vec![0.0_f32; 2]);
    let long = Arc::new(vec![0.0_f32; 100]);
    mixer.apply_command(trigger(Arc::clone(&long), Gain { num: 1, den: 1 }, 36));
    mixer.apply_command(trigger(Arc::clone(&short), Gain { num: 1, den: 1 }, 38));
    mixer.apply_command(trigger(Arc::clone(&long), Gain { num: 1, den: 1 }, 42));

    // One stereo frame exhausts the short voice.
    for i in 0..3 {
        mixer.step_voice(i, 2);
    }
    mixer.remove_finished();
    assert_eq!(mixer.voice_count(), 2);
    assert_eq!(mixer.voice(0).note, 36);
    assert_eq!(mixer.voice(1).note, 42);
}

#[test]
fn choke_fades_every_matching_voice() {
    let mut mixer: VoiceMixer<Arc<Vec<f32>>> = VoiceMixer::new(MAX_POLYPHONY);
    let samples = Arc::new(vec![0.0_f32; 100]);
    mixer.apply_command(trigger(Arc::clone(&samples), Gain { num: 1, den: 1 }, 46));
    mixer.apply_command(trigger(Arc::clone(&samples), Gain { num: 1, den: 1 }, 46));
    mixer.apply_command(trigger(Arc::clone(&samples), Gain { num: 1, den: 1 }, 38));
    mixer.apply_command(AudioCommand::Choke {
        note: 46,
        fade_frames: 8,
    });
    assert!(mixer.voice(0).fade.is_some());
    assert!(mixer.voice(1).fade.is_some());
    assert!(mixer.voice(2).fade.is_none());
}
