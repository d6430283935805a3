use drumkit::MappingSource;
use drumkit::NoteMapping;
use drumkit::Settings;
use drumkit::builtin_mappings;
use drumkit::default_kit_repos;

#[test]
fn builtin_mappings_load() {
    let mappings = builtin_mappings();
    assert_eq!(mappings.len(), 2);
    assert_eq!(mappings[0].name, "General MIDI");
    assert_eq!(mappings[1].name, "Alesis Nitro Max");

    // Spot-check GM.
    assert_eq!(mappings[0].drum_name(36), "Kick");
    assert_eq!(mappings[0].drum_name(38), "Snare");
    assert_eq!(mappings[0].choke_targets(42), &[46, 23, 21]);

    // Spot-check Alesis.
    assert_eq!(mappings[1].drum_name(40), "Snare (Rim)");
    assert_eq!(mappings[1].drum_name(58), "Tom 3 (Rim)");
}

#[test]
fn set_note_name() {
    let mut m = NoteMapping::new("Test".to_string(), MappingSource::BuiltIn);
    assert_eq!(m.drum_name(60), "Unknown");
    m.set_note_name(60, "Custom".to_string());
    assert_eq!(m.drum_name(60), "Custom");
}

#[test]
fn choke_targets_default_to_empty() {
    let m = NoteMapping::new("Test".to_string(), MappingSource::BuiltIn);
    assert!(m.choke_targets(42).is_empty());

    let gm = drumkit::default_mapping();
    assert_eq!(gm.choke_targets(44), &[46, 23, 21]);
    assert_eq!(gm.choke_targets(23), &[46]);
    assert!(gm.choke_targets(99).is_empty());
}

#[test]
fn mapping_entries_round_trip() {
    let mut m = NoteMapping::new("Test".to_string(), MappingSource::BuiltIn);
    m.set_note_name(36, "Kick".to_string());
    m.set_note_name(38, "Snare".to_string());
    m.set_choke_targets(42, vec![46, 23]);

    let notes = m.note_entries();
    assert_eq!(notes.len(), 2);
    assert_eq!(notes[0], (36, "Kick".to_string()));
    assert_eq!(notes[1], (38, "Snare".to_string()));

    let chokes = m.choke_entries();
    assert_eq!(chokes.len(), 1);
    assert_eq!(chokes[0], (42, vec![46, 23]));

    // Rebuilding a mapping from its entries preserves the lookups.
    let mut rebuilt = NoteMapping::new("Test".to_string(), MappingSource::BuiltIn);
    for (note, name) in notes {
        rebuilt.set_note_name(note, name);
    }
    for (note, targets) in chokes {
        rebuilt.set_choke_targets(note, targets);
    }
    assert_eq!(rebuilt.drum_name(36), "Kick");
    assert_eq!(rebuilt.drum_name(38), "Snare");
    assert_eq!(rebuilt.drum_name(99), "Unknown");
    assert_eq!(rebuilt.choke_targets(42), &[46, 23]);
    assert!(rebuilt.choke_targets(99).is_empty());
}

#[test]
fn load_missing_file() {
    // Fresh settings remember nothing.
    let settings = Settings::default();
    assert!(settings.kit_path.is_none());
    assert!(settings.audio_device.is_none());
    assert!(settings.midi_device.is_none());
}

#[test]
fn default_settings_carry_builtin_repo() {
    let settings = Settings::default();
    assert_eq!(settings.kit_repos, default_kit_repos());
    assert_eq!(settings.kit_repos[0], drumkit::DEFAULT_KIT_REPO);
    assert!(settings.extra_kit_dirs.is_empty());
    assert!(settings.extra_mapping_dirs.is_empty());
}

#[test]
fn index_navigation_wraps() {
    let mut sel: usize = 0;
    drumkit::index_up(&mut sel, 5);
    assert_eq!(sel, 4);
    drumkit::index_down(&mut sel, 5);
    assert_eq!(sel, 0);
    drumkit::index_down(&mut sel, 5);
    assert_eq!(sel, 1);
    drumkit::index_up(&mut sel, 0);
    assert_eq!(sel, 1);
}

#[test]
fn device_lookup_by_name() {
    let devices = vec![
        drumkit::AudioDevice {
            name: "Speakers".to_string(),
            index: 0,
        },
        drumkit::AudioDevice {
            name: "HDMI".to_string(),
            index: 3,
        },
    ];
    assert_eq!(drumkit::audio_device_by_name(&devices, "HDMI"), Some(3));
    assert_eq!(drumkit::audio_device_by_name(&devices, "Missing"), None);

    let midi = vec![drumkit::MidiDevice {
        name: "Nitro".to_string(),
        port_index: 1,
    }];
    assert_eq!(drumkit::midi_port_by_name(&midi, "Nitro"), Some(1));
    assert_eq!(drumkit::midi_port_by_name(&midi, "Other"), None);
}
