//! Real-time core of a MIDI drum sampler.
//!
//! The library covers the event and mixing logic that runs between a MIDI
//! input callback and an audio output callback: parsing raw MIDI bytes,
//! selecting a sample variant by velocity layer and round-robin cursor,
//! carrying trigger and choke commands over a bounded single-producer
//! single-consumer queue, and advancing the set of playing voices frame by
//! frame, including linear fade-outs for choked notes.
//!
//! Sample data itself (PCM buffers) is carried as an opaque payload type
//! parameter: the mixer decides *which* sample plays at *which* position and
//! gain, while the embedding program performs the floating-point mixing.

use vstd::prelude::*;

mod devices;
mod dispatch;
mod kit;
mod mapping;
mod midi;
mod mixer;
mod nav;
mod queue;
mod settings;
mod shared;
mod store;
mod text;
mod voice;

pub use devices::AudioDevice;
pub use devices::audio_device_by_name;
pub use dispatch::DispatchOutcome;
pub use dispatch::commands_for_message;
pub use dispatch::dispatch_message;
pub use kit::DiscoveredKit;
pub use kit::Kit;
pub use kit::KitBuilder;
pub use kit::KitError;
pub use kit::NoteGroup;
pub use kit::NoteMap;
pub use kit::SampleFileInfo;
pub use kit::SampleVariant;
pub use kit::note_keys;
pub use kit::parse_sample_filename;
pub use kit::velocity_layer;
pub use mapping::MappingSource;
pub use mapping::NoteMapping;
pub use mapping::alesis_mapping;
pub use mapping::builtin_mappings;
pub use mapping::default_mapping;
pub use mapping::fallback_mapping;
pub use midi::MidiDevice;
pub use midi::MidiMessage;
pub use midi::TimestampedMessage;
pub use midi::drum_name;
pub use midi::midi_port_by_name;
pub use mixer::AudioCommand;
pub use mixer::FrameStep;
pub use mixer::MAX_POLYPHONY;
pub use mixer::VoiceMixer;
pub use nav::index_down;
pub use nav::index_up;
pub use queue::channel_capacity;
pub use queue::command_channel;
pub use queue::recv_command;
pub use queue::send_command;
pub use settings::DEFAULT_KIT_REPO;
pub use settings::Settings;
pub use settings::default_kit_repos;
pub use shared::SwapCell;
pub use shared::current_mapping;
pub use shared::current_notes;
pub use shared::install_kit;
pub use shared::install_mapping;
pub use shared::new_mapping_cell;
pub use shared::new_notes_cell;
pub use store::RemoteKit;
pub use store::StoreRow;
pub use store::build_store_rows;
pub use store::format_size;
pub use store::normalize_repo_input;
pub use store::raw_base;
pub use store::tree_url;
pub use voice::Fade;
pub use voice::FrameGain;
pub use voice::Gain;
pub use voice::Voice;
pub use voice::lemma_fade_ramp;
pub use voice::lemma_fade_never_lengthens;
pub use kit::lemma_round_robin_cycle;
pub use kit::lemma_velocity_layer_range;

verus! {

/// Number of frames for the standard hi-hat choke fade: about 68 ms at the
/// given sample rate.
pub fn choke_fade_frames(sample_rate: u32) -> (r: usize)
    ensures
        r == sample_rate as int * 68 / 1000,
{
    let frames: u64 = sample_rate as u64 * 68 / 1000;
    proof {
        assert(frames <= 0xffff_ffffu64 * 68 / 1000) by (nonlinear_arith)
            requires frames == sample_rate as u64 * 68 / 1000 && sample_rate <= 0xffff_ffffu32;
    }
    frames as usize
}

/// Number of frames for the cymbal-grab (aftertouch) fade: about 85 ms at the
/// given sample rate.
pub fn aftertouch_fade_frames(sample_rate: u32) -> (r: usize)
    ensures
        r == sample_rate as int * 85 / 1000,
{
    let frames: u64 = sample_rate as u64 * 85 / 1000;
    proof {
        assert(frames <= 0xffff_ffffu64 * 85 / 1000) by (nonlinear_arith)
            requires frames == sample_rate as u64 * 85 / 1000 && sample_rate <= 0xffff_ffffu32;
    }
    frames as usize
}

} // verus!
