use drumkit::KitBuilder;
use drumkit::KitError;
use drumkit::NoteGroup;
use drumkit::SampleVariant;
use drumkit::parse_sample_filename;
use drumkit::velocity_layer;

fn group_of(variants: Vec<SampleVariant<Vec<f32>>>) -> NoteGroup<Vec<f32>> {
    let max_v = variants.iter().map(|v| v.velocity_layer).max().unwrap_or(1);
    let max_rr = variants.iter().map(|v| v.round_robin).max().unwrap_or(1);
    NoteGroup::new(variants, max_v, max_rr)
}

fn variant(value: f32, layer: u8, rr: u8) -> SampleVariant<Vec<f32>> {
    SampleVariant {
        samples: vec![value; 10],
        sample_len: 10,
        velocity_layer: layer,
        round_robin: rr,
    }
}

#[test]
fn parse_simple_note() {
    let info = parse_sample_filename("36.wav").unwrap();
    assert_eq!(info.note, 36);
    assert_eq!(info.velocity_layer, None);
    assert_eq!(info.round_robin, None);
}

#[test]
fn parse_with_velocity_and_round_robin() {
    let info = parse_sample_filename("38_v1_rr1.wav").unwrap();
    assert_eq!(info.note, 38);
    assert_eq!(info.velocity_layer, Some(1));
    assert_eq!(info.round_robin, Some(1));
}

#[test]
fn parse_higher_velocity_and_round_robin() {
    let info = parse_sample_filename("38_v2_rr3.wav").unwrap();
    assert_eq!(info.note, 38);
    assert_eq!(info.velocity_layer, Some(2));
    assert_eq!(info.round_robin, Some(3));
}

#[test]
fn parse_not_a_number() {
    assert!(parse_sample_filename("not_a_number.wav").is_none());
}

#[test]
fn parse_wrong_extension() {
    assert!(parse_sample_filename("readme.txt").is_none());
}

#[test]
fn parse_other_audio_extensions() {
    let info = parse_sample_filename("36.flac").unwrap();
    assert_eq!(info.note, 36);

    let info = parse_sample_filename("38_v1_rr1.mp3").unwrap();
    assert_eq!(info.note, 38);
    assert_eq!(info.velocity_layer, Some(1));

    let info = parse_sample_filename("42.ogg").unwrap();
    assert_eq!(info.note, 42);

    let info = parse_sample_filename("44.m4a").unwrap();
    assert_eq!(info.note, 44);

    let info = parse_sample_filename("46.aac").unwrap();
    assert_eq!(info.note, 46);
}

#[test]
fn select_single_variant() {
    let group = group_of(vec![variant(1.0, 1, 1)]);
    assert!(group.select(1).is_some());
    assert!(group.select(64).is_some());
    assert!(group.select(127).is_some());
}

#[test]
fn select_velocity_mapping() {
    let group = group_of(vec![variant(0.1, 1, 1), variant(0.9, 2, 1)]);

    // Low velocity: layer 1 (soft).
    let s = group.select(1).unwrap();
    assert_eq!(s.samples[0], 0.1);

    // Mid velocity: still layer 1.
    let s = group.select(63).unwrap();
    assert_eq!(s.samples[0], 0.1);

    // Higher velocity: layer 2 (loud).
    let s = group.select(64).unwrap();
    assert_eq!(s.samples[0], 0.9);

    // Max velocity: layer 2 (loud).
    let s = group.select(127).unwrap();
    assert_eq!(s.samples[0], 0.9);
}

#[test]
fn select_round_robin_cycling() {
    let group = group_of(vec![variant(1.0, 1, 1), variant(2.0, 1, 2), variant(3.0, 1, 3)]);

    assert_eq!(group.select(64).unwrap().samples[0], 1.0);
    assert_eq!(group.select(64).unwrap().samples[0], 2.0);
    assert_eq!(group.select(64).unwrap().samples[0], 3.0);
    // Wraps around.
    assert_eq!(group.select(64).unwrap().samples[0], 1.0);
}

#[test]
fn select_velocity_with_three_layers() {
    let group = group_of(vec![variant(1.0, 1, 1), variant(2.0, 2, 1), variant(3.0, 3, 1)]);

    // 3 layers: vel 1-42 layer 1, vel 43-84 layer 2, vel 85-127 layer 3.
    assert_eq!(group.select(1).unwrap().samples[0], 1.0);
    assert_eq!(group.select(42).unwrap().samples[0], 1.0);
    assert_eq!(group.select(43).unwrap().samples[0], 2.0);
    assert_eq!(group.select(84).unwrap().samples[0], 2.0);
    assert_eq!(group.select(85).unwrap().samples[0], 3.0);
    assert_eq!(group.select(127).unwrap().samples[0], 3.0);
}

#[test]
fn velocity_layer_three_layer_bounds() {
    for v in 1..=42u8 {
        assert_eq!(velocity_layer(v, 3), 1, "velocity {}", v);
    }
    for v in 43..=84u8 {
        assert_eq!(velocity_layer(v, 3), 2, "velocity {}", v);
    }
    for v in 85..=127u8 {
        assert_eq!(velocity_layer(v, 3), 3, "velocity {}", v);
    }
}

#[test]
fn velocity_layer_edges() {
    for layers in 1..=8u8 {
        assert_eq!(velocity_layer(1, layers), 1);
        assert_eq!(velocity_layer(127, layers), layers);
    }
}

#[test]
fn load_kit_velocity_round_robin_grouping() {
    let mut builder: KitBuilder<Vec<f32>> = KitBuilder::new("kit".to_string());
    builder
        .add_sample(38, Some(1), Some(1), vec![100.0; 10], 10, 44100, 2)
        .unwrap();
    builder
        .add_sample(38, Some(1), Some(2), vec![200.0; 10], 10, 44100, 2)
        .unwrap();
    builder
        .add_sample(38, Some(2), Some(1), vec![300.0; 10], 10, 44100, 2)
        .unwrap();
    builder
        .add_sample(38, Some(2), Some(2), vec![400.0; 10], 10, 44100, 2)
        .unwrap();
    builder
        .add_sample(36, None, None, vec![0.0; 10], 10, 44100, 2)
        .unwrap();

    let kit = builder.finish().unwrap();
    let keys = drumkit::note_keys(&kit.notes);
    assert_eq!(keys, vec![36, 38]);

    let group38 = kit.notes.group(38).unwrap();
    assert_eq!(group38.variants.len(), 4);
    assert_eq!(group38.max_velocity_layer, 2);
    assert_eq!(group38.max_round_robin, 2);

    let group36 = kit.notes.group(36).unwrap();
    assert_eq!(group36.variants.len(), 1);
    assert_eq!(group36.max_velocity_layer, 1);
    assert_eq!(group36.max_round_robin, 1);
}

#[test]
fn builder_rejects_sample_rate_mismatch() {
    let mut builder: KitBuilder<Vec<f32>> = KitBuilder::new("kit".to_string());
    builder
        .add_sample(36, None, None, vec![0.0; 10], 10, 44100, 2)
        .unwrap();
    let err = builder
        .add_sample(38, None, None, vec![0.0; 10], 10, 48000, 2)
        .unwrap_err();
    assert_eq!(
        err,
        KitError::SampleRateMismatch {
            expected: 44100,
            got: 48000,
        }
    );
}

#[test]
fn builder_rejects_channel_mismatch() {
    let mut builder: KitBuilder<Vec<f32>> = KitBuilder::new("kit".to_string());
    builder
        .add_sample(36, None, None, vec![0.0; 10], 10, 44100, 2)
        .unwrap();
    let err = builder
        .add_sample(38, None, None, vec![0.0; 10], 10, 44100, 1)
        .unwrap_err();
    assert_eq!(err, KitError::ChannelCountMismatch { expected: 2, got: 1 });
}

#[test]
fn builder_rejects_empty_kit() {
    let builder: KitBuilder<Vec<f32>> = KitBuilder::new("kit".to_string());
    match builder.finish() {
        Err(e) => assert_eq!(e, KitError::NoSamples),
        Ok(_) => panic!("an empty builder must not produce a kit"),
    }
}

#[test]
fn builder_rejects_zero_indices() {
    let mut builder: KitBuilder<Vec<f32>> = KitBuilder::new("kit".to_string());
    let err = builder
        .add_sample(36, Some(0), None, vec![0.0; 10], 10, 44100, 2)
        .unwrap_err();
    assert_eq!(err, KitError::InvalidVariantIndex);
}

#[test]
fn builder_sorts_variants_by_layer_then_round_robin() {
    let mut builder: KitBuilder<Vec<f32>> = KitBuilder::new("kit".to_string());
    builder
        .add_sample(38, Some(2), Some(2), vec![4.0], 1, 44100, 2)
        .unwrap();
    builder
        .add_sample(38, Some(1), Some(2), vec![2.0], 1, 44100, 2)
        .unwrap();
    builder
        .add_sample(38, Some(2), Some(1), vec![3.0], 1, 44100, 2)
        .unwrap();
    builder
        .add_sample(38, Some(1), Some(1), vec![1.0], 1, 44100, 2)
        .unwrap();
    let kit = builder.finish().unwrap();
    let group = kit.notes.group(38).unwrap();
    let order: Vec<(u8, u8)> = group
        .variants
        .iter()
        .map(|v| (v.velocity_layer, v.round_robin))
        .collect();
    assert_eq!(order, vec![(1, 1), (1, 2), (2, 1), (2, 2)]);
}
