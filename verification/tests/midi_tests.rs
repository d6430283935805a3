use drumkit::MidiMessage;
use drumkit::drum_name;

#[test]
fn parse_note_on() {
    let msg = MidiMessage::parse(&[0x99, 38, 100]);
    assert_eq!(
        msg,
        MidiMessage::NoteOn {
            channel: 10,
            note: 38,
            velocity: 100,
        }
    );
}

#[test]
fn parse_note_on_velocity_zero_is_note_off() {
    let msg = MidiMessage::parse(&[0x99, 38, 0]);
    assert_eq!(
        msg,
        MidiMessage::NoteOff {
            channel: 10,
            note: 38,
            velocity: 0,
        }
    );
}

#[test]
fn parse_note_off() {
    let msg = MidiMessage::parse(&[0x89, 42, 64]);
    assert_eq!(
        msg,
        MidiMessage::NoteOff {
            channel: 10,
            note: 42,
            velocity: 64,
        }
    );
}

#[test]
fn parse_poly_aftertouch() {
    let msg = MidiMessage::parse(&[0xA9, 49, 127]);
    assert_eq!(
        msg,
        MidiMessage::PolyAftertouch {
            channel: 10,
            note: 49,
            pressure: 127,
        }
    );
}

#[test]
fn parse_control_change() {
    let msg = MidiMessage::parse(&[0xB9, 4, 65]);
    assert_eq!(
        msg,
        MidiMessage::ControlChange {
            channel: 10,
            controller: 4,
            value: 65,
        }
    );
}

#[test]
fn parse_empty_data() {
    let msg = MidiMessage::parse(&[]);
    assert_eq!(msg, MidiMessage::Other { data: vec![] });
}

#[test]
fn parse_short_data() {
    let msg = MidiMessage::parse(&[0x90]);
    assert_eq!(msg, MidiMessage::Other { data: vec![0x90] });
}

#[test]
fn parse_system_realtime_clock() {
    let msg = MidiMessage::parse(&[0xF8]);
    assert_eq!(msg, MidiMessage::SystemRealtime { status: 0xF8 });
}

#[test]
fn parse_system_realtime_active_sensing() {
    let msg = MidiMessage::parse(&[0xFE]);
    assert_eq!(msg, MidiMessage::SystemRealtime { status: 0xFE });
}

#[test]
fn parse_unknown_status() {
    let msg = MidiMessage::parse(&[0xF0, 0x7E, 0xF7]);
    assert_eq!(
        msg,
        MidiMessage::Other {
            data: vec![0xF0, 0x7E, 0xF7],
        }
    );
}

#[test]
fn drum_name_known_notes() {
    assert_eq!(drum_name(36), "Kick");
    assert_eq!(drum_name(38), "Snare");
    assert_eq!(drum_name(42), "Closed Hi-Hat");
    assert_eq!(drum_name(46), "Open Hi-Hat");
    assert_eq!(drum_name(49), "Crash 1");
    assert_eq!(drum_name(51), "Ride");
}

#[test]
fn drum_name_alesis_nonstandard() {
    assert_eq!(drum_name(21), "HH Splash");
    assert_eq!(drum_name(23), "HH Half-Open");
}

#[test]
fn drum_name_unknown() {
    assert_eq!(drum_name(0), "Unknown");
    assert_eq!(drum_name(127), "Unknown");
}

#[test]
fn display_note_on() {
    let msg = MidiMessage::NoteOn {
        channel: 10,
        note: 38,
        velocity: 100,
    };
    let s = msg.describe();
    assert!(s.contains("NOTE ON"));
    assert!(s.contains("38"));
    assert!(s.contains("100"));
    assert!(s.contains("Snare"));
}

#[test]
fn display_choke() {
    let msg = MidiMessage::PolyAftertouch {
        channel: 10,
        note: 49,
        pressure: 127,
    };
    let s = msg.describe();
    assert!(s.contains("CHOKE"));
    assert!(s.contains("Crash 1"));
}

#[test]
fn display_cc_hihat() {
    let msg = MidiMessage::ControlChange {
        channel: 10,
        controller: 4,
        value: 65,
    };
    let s = msg.describe();
    assert!(s.contains("CC"));
    assert!(s.contains("HH Pedal"));
}

#[test]
fn all_channels_parse_correctly() {
    for ch in 0..16u8 {
        let msg = MidiMessage::parse(&[0x90 | ch, 60, 100]);
        assert_eq!(
            msg,
            MidiMessage::NoteOn {
                channel: ch + 1,
                note: 60,
                velocity: 100,
            }
        );
    }
}

#[test]
fn display_other_hex() {
    let msg = MidiMessage::Other {
        data: vec![0xF0, 0x7E, 0xF7],
    };
    let s = msg.describe();
    assert_eq!(s, "OTHER     [F0, 7E, F7]");
}

#[test]
fn display_note_on_exact_line() {
    let msg = MidiMessage::NoteOn {
        channel: 10,
        note: 38,
        velocity: 127,
    };
    let s = msg.describe();
    let bar = "\u{2588}".repeat(40);
    assert_eq!(
        s,
        format!("NOTE ON   ch:10 note:38  vel:127 Snare            {}", bar)
    );
}
