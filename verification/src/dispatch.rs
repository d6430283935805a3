//! The input dispatcher: from a parsed MIDI message to the commands the
//! audio thread must see, in the right order.
//!
//! On a note-on, the choke commands for every choke target of the struck
//! note are queued ahead of the new trigger, so that a closing hi-hat
//! silences the open one in the same buffer drain and no double sound is
//! heard. A poly-aftertouch at full pressure chokes its own note, modelling
//! a cymbal grab. Everything else produces no command.

use vstd::prelude::*;

use crate::kit::NoteMap;
use crate::kit::count_at_layer;
use crate::kit::spec_layer;
use crate::kit::velocity_layer;
use crate::mapping::NoteMapping;
use crate::midi::MidiMessage;
use crate::mixer::AudioCommand;
use crate::queue::send_command;
use crate::voice::Gain;

verus! {

/// What the embedding program should show for one dispatched message.
#[derive(Debug, Clone, PartialEq)]
pub enum DispatchOutcome {
    /// A note was struck (whether or not a sample was found for it).
    Hit { note: u8, velocity: u8 },
    /// A cymbal-grab choke was requested for a note.
    CymbalChoke { note: u8 },
    /// The message asked for nothing.
    Ignored,
}

/// The commands a message produces, stated over the mapping's choke targets
/// and the kit's note table: all the chokes, in target order, then at most
/// one trigger.
pub open spec fn spec_dispatch_shape<B: Clone>(
    msg: MidiMessage,
    notes: NoteMap<B>,
    mapping: NoteMapping,
    choke_fade: usize,
    aftertouch_fade: usize,
    cmds: Seq<AudioCommand<B>>,
    outcome: DispatchOutcome,
) -> bool {
    match msg {
        MidiMessage::NoteOn { note, velocity, .. } => {
            let targets = mapping.spec_choke_targets(note);
            &&& outcome == DispatchOutcome::Hit { note, velocity }
            &&& cmds.len() >= targets.len()
            &&& forall|i: int|
                0 <= i < targets.len() ==> cmds[i] == AudioCommand::<B>::Choke {
                    note: targets[i],
                    fade_frames: choke_fade,
                }
            &&& cmds.len() <= targets.len() + 1
            &&& match notes.spec_group(note) {
                None => cmds.len() == targets.len(),
                Some(g) => {
                    &&& (cmds.len() == targets.len() + 1) == (count_at_layer(
                        g.variants@,
                        spec_layer(velocity, g.max_velocity_layer) as u8,
                    ) != 0)
                    &&& (cmds.len() == targets.len() + 1 ==> (cmds.last()
                        matches AudioCommand::Trigger { samples, sample_len, gain, note: tn }
                        && tn == note && gain == (Gain { num: velocity as u32, den: 127u32 })
                        && exists|c: nat|
                        (#[trigger] g.spec_select(velocity, c)) matches Some(idx) && 0 <= idx
                            < g.variants@.len() && sample_len == g.variants@[idx].sample_len
                            && vstd::pervasive::cloned::<B>(g.variants@[idx].samples, samples)))
                },
            }
        },
        MidiMessage::PolyAftertouch { note, pressure, .. } => {
            if pressure == 127 {
                &&& outcome == DispatchOutcome::CymbalChoke { note }
                &&& cmds =~= seq![
                    AudioCommand::<B>::Choke { note, fade_frames: aftertouch_fade },
                ]
            } else {
                outcome == DispatchOutcome::Ignored && cmds.len() == 0
            }
        },
        _ => outcome == DispatchOutcome::Ignored && cmds.len() == 0,
    }
}

/// The commands one parsed MIDI message produces, with the chokes for the
/// struck note's targets placed ahead of its trigger.
pub fn commands_for_message<B: Clone>(
    msg: &MidiMessage,
    notes: &NoteMap<B>,
    mapping: &NoteMapping,
    choke_fade: usize,
    aftertouch_fade: usize,
) -> (r: (Vec<AudioCommand<B>>, DispatchOutcome))
    requires
        notes.wf(),
        mapping.wf(),
    ensures
        spec_dispatch_shape(*msg, *notes, *mapping, choke_fade, aftertouch_fade, r.0@, r.1),
{
    let mut cmds: Vec<AudioCommand<B>> = Vec::new();
    match msg {
        MidiMessage::NoteOn { note, velocity, .. } => {
            let note = *note;
            let velocity = *velocity;
            let targets = mapping.choke_targets(note);
            let mut i: usize = 0;
            while i < targets.len()
                invariant
                    i <= targets@.len(),
                    targets@ == mapping.spec_choke_targets(note),
                    cmds@.len() == i,
                    forall|k: int|
                        0 <= k < i ==> cmds@[k] == (AudioCommand::<B>::Choke {
                            note: targets@[k],
                            fade_frames: choke_fade,
                        }),
                decreases targets@.len() - i,
            {
                cmds.push(AudioCommand::Choke { note: targets[i], fade_frames: choke_fade });
                i = i + 1;
            }
            match notes.group(note) {
                Some(group) => {
                    match group.select(velocity) {
                        Some(variant) => {
                            cmds.push(
                                AudioCommand::Trigger {
                                    samples: variant.samples.clone(),
                                    sample_len: variant.sample_len,
                                    gain: Gain::from_velocity(velocity),
                                    note,
                                },
                            );
                        },
                        None => {},
                    }
                },
                None => {},
            }
            (cmds, DispatchOutcome::Hit { note, velocity })
        },
        MidiMessage::PolyAftertouch { note, pressure, .. } => {
            let note = *note;
            if *pressure == 127 {
                cmds.push(AudioCommand::Choke { note, fade_frames: aftertouch_fade });
                proof {
                    assert(cmds@ =~= seq![
                        AudioCommand::<B>::Choke { note, fade_frames: aftertouch_fade },
                    ]);
                }
                (cmds, DispatchOutcome::CymbalChoke { note })
            } else {
                (cmds, DispatchOutcome::Ignored)
            }
        },
        _ => (cmds, DispatchOutcome::Ignored),
    }
}

/// Parse raw MIDI bytes and push the commands they call for, chokes ahead of
/// the trigger, onto the command channel.
///
/// A command offered to a full channel is dropped: overload never blocks the
/// input thread. The returned outcome tells the caller what to display.
pub fn dispatch_message<B: Clone>(
    data: &[u8],
    producer: &mut rtrb::Producer<AudioCommand<B>>,
    notes: &NoteMap<B>,
    mapping: &NoteMapping,
    choke_fade: usize,
    aftertouch_fade: usize,
) -> (outcome: DispatchOutcome)
    requires
        notes.wf(),
        mapping.wf(),
    ensures
        ({
            let msg = crate::midi::spec_parse(data@);
            match msg {
                MidiMessage::NoteOn { note, velocity, .. } => outcome == DispatchOutcome::Hit {
                    note,
                    velocity,
                },
                MidiMessage::PolyAftertouch { note, pressure, .. } => outcome == (
                if pressure == 127 {
                    DispatchOutcome::CymbalChoke { note }
                } else {
                    DispatchOutcome::Ignored
                }),
                _ => outcome == DispatchOutcome::Ignored,
            }
        }),
{
    let msg = MidiMessage::parse(data);
    let (commands, outcome) = commands_for_message(&msg, notes, mapping, choke_fade, aftertouch_fade);
    let mut commands = commands;
    let n = commands.len();
    let mut i: usize = 0;
    while i < n
        invariant
            i <= n,
            commands@.len() == n - i,
        decreases n - i,
    {
        let cmd = commands.remove(0);
        send_command(producer, cmd);
        i = i + 1;
    }
    outcome
}

} // verus!
