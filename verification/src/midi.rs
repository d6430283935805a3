//! Parsing of raw MIDI bytes into semantic percussion events.

use vstd::prelude::*;
use vstd::string::StrSliceExecFns;
use vstd::string::StringExecFns;

use crate::text::dec_u64;
use crate::text::hex_byte;
use crate::text::pad_to;
use crate::text::repeat_str;
use crate::text::spec_dec;
use crate::text::spec_hex_byte;
use crate::text::spec_pad;
use crate::text::spec_repeat;

verus! {

/// A parsed MIDI message, restricted to the kinds a drum kit cares about.
///
/// Channels are reported 1-indexed, as on the front panel of a drum module.
#[derive(Debug, Clone, PartialEq)]
pub enum MidiMessage {
    NoteOn { channel: u8, note: u8, velocity: u8 },
    NoteOff { channel: u8, note: u8, velocity: u8 },
    PolyAftertouch { channel: u8, note: u8, pressure: u8 },
    ControlChange { channel: u8, controller: u8, value: u8 },
    /// MIDI system real-time messages (clock, start, stop, ...).
    SystemRealtime { status: u8 },
    Other { data: Vec<u8> },
}

/// What `MidiMessage::parse` returns for a given byte sequence.
pub open spec fn spec_parse(data: Seq<u8>) -> MidiMessage {
    if data.len() == 1 && data[0] >= 0xf8 {
        MidiMessage::SystemRealtime { status: data[0] }
    } else if data.len() == 3 && data[0] & 0xf0 == 0x90 && data[2] > 0 {
        MidiMessage::NoteOn {
            channel: ((data[0] & 0x0f) + 1) as u8,
            note: data[1],
            velocity: data[2],
        }
    } else if data.len() == 3 && data[0] & 0xf0 == 0x90 {
        MidiMessage::NoteOff { channel: ((data[0] & 0x0f) + 1) as u8, note: data[1], velocity: 0 }
    } else if data.len() == 3 && data[0] & 0xf0 == 0x80 {
        MidiMessage::NoteOff {
            channel: ((data[0] & 0x0f) + 1) as u8,
            note: data[1],
            velocity: data[2],
        }
    } else if data.len() == 3 && data[0] & 0xf0 == 0xa0 {
        MidiMessage::PolyAftertouch {
            channel: ((data[0] & 0x0f) + 1) as u8,
            note: data[1],
            pressure: data[2],
        }
    } else if data.len() == 3 && data[0] & 0xf0 == 0xb0 {
        MidiMessage::ControlChange {
            channel: ((data[0] & 0x0f) + 1) as u8,
            controller: data[1],
            value: data[2],
        }
    } else {
        MidiMessage::Other { data: choose|v: Vec<u8>| v@ == data }
    }
}

impl MidiMessage {
    /// Parse raw MIDI bytes into a `MidiMessage`.
    ///
    /// Note-on with velocity 0 is reported as note-off, following the MIDI
    /// convention. A single byte of `0xF8` or above is a system real-time
    /// message. Anything unrecognised is kept verbatim as `Other`.
    pub fn parse(data: &[u8]) -> (r: MidiMessage)
        ensures
            matches_parse(r, data@),
    {
        if data.len() == 1 && data[0] >= 0xf8 {
            return MidiMessage::SystemRealtime { status: data[0] };
        }

        if data.len() == 3 {
            let b0 = data[0];
            let status = b0 & 0xf0;
            let low = b0 & 0x0f;
            proof {
                assert(b0 & 0x0f < 16) by (bit_vector);
            }
            let channel = low + 1;
            if status == 0x90 && data[2] > 0 {
                return MidiMessage::NoteOn { channel, note: data[1], velocity: data[2] };
            }
            if status == 0x90 {
                return MidiMessage::NoteOff { channel, note: data[1], velocity: 0 };
            }
            if status == 0x80 {
                return MidiMessage::NoteOff { channel, note: data[1], velocity: data[2] };
            }
            if status == 0xa0 {
                return MidiMessage::PolyAftertouch { channel, note: data[1], pressure: data[2] };
            }
            if status == 0xb0 {
                return MidiMessage::ControlChange { channel, controller: data[1], value: data[2] };
            }
        }

        MidiMessage::Other { data: vstd::slice::slice_to_vec(data) }
    }
}

/// Relates a parse result to the input bytes: `r` is exactly what
/// `spec_parse` prescribes (stated field-wise so that the `Other` case can
/// compare the carried bytes by view).
pub open spec fn matches_parse(r: MidiMessage, data: Seq<u8>) -> bool {
    match r {
        MidiMessage::Other { data: v } => {
            spec_parse(data) matches MidiMessage::Other { .. } && v@ == data
        },
        _ => r == spec_parse(data),
    }
}

/// Name of a MIDI percussion note under the General MIDI drum map (plus two
/// extended hi-hat notes used by some drum modules).
pub fn drum_name(note: u8) -> (r: &'static str)
    ensures
        r@ == spec_drum_name(note),
{
    match note {
        21 => "HH Splash",
        23 => "HH Half-Open",
        35 => "Bass Drum 2",
        36 => "Kick",
        37 => "Side Stick",
        38 => "Snare",
        39 => "Hand Clap",
        40 => "Snare Rim",
        41 => "Low Floor Tom",
        42 => "Closed Hi-Hat",
        43 => "High Floor Tom",
        44 => "Pedal Hi-Hat",
        45 => "Low Tom",
        46 => "Open Hi-Hat",
        47 => "Low-Mid Tom",
        48 => "Hi-Mid Tom",
        49 => "Crash 1",
        50 => "High Tom",
        51 => "Ride",
        52 => "Chinese Cymbal",
        53 => "Ride Bell",
        54 => "Tambourine",
        55 => "Splash Cymbal",
        56 => "Cowbell",
        57 => "Crash 2",
        58 => "Vibraslap",
        59 => "Ride 2",
        _ => "Unknown",
    }
}

/// The General MIDI drum name of a note, as a character sequence.
pub open spec fn spec_drum_name(note: u8) -> Seq<char> {
    match note {
        21u8 => "HH Splash"@,
        23u8 => "HH Half-Open"@,
        35u8 => "Bass Drum 2"@,
        36u8 => "Kick"@,
        37u8 => "Side Stick"@,
        38u8 => "Snare"@,
        39u8 => "Hand Clap"@,
        40u8 => "Snare Rim"@,
        41u8 => "Low Floor Tom"@,
        42u8 => "Closed Hi-Hat"@,
        43u8 => "High Floor Tom"@,
        44u8 => "Pedal Hi-Hat"@,
        45u8 => "Low Tom"@,
        46u8 => "Open Hi-Hat"@,
        47u8 => "Low-Mid Tom"@,
        48u8 => "Hi-Mid Tom"@,
        49u8 => "Crash 1"@,
        50u8 => "High Tom"@,
        51u8 => "Ride"@,
        52u8 => "Chinese Cymbal"@,
        53u8 => "Ride Bell"@,
        54u8 => "Tambourine"@,
        55u8 => "Splash Cymbal"@,
        56u8 => "Cowbell"@,
        57u8 => "Crash 2"@,
        58u8 => "Vibraslap"@,
        59u8 => "Ride 2"@,
        _ => "Unknown"@,
    }
}

/// The names of the system real-time messages.
pub open spec fn spec_realtime_name(status: u8) -> Seq<char> {
    match status {
        0xf8u8 => "Clock"@,
        0xfau8 => "Start"@,
        0xfbu8 => "Continue"@,
        0xfcu8 => "Stop"@,
        0xfeu8 => "Active Sensing"@,
        0xffu8 => "Reset"@,
        _ => "Unknown"@,
    }
}

/// A byte list as uppercase hexadecimal pairs separated by ", ".
pub open spec fn spec_hex_list(data: Seq<u8>) -> Seq<char>
    decreases data.len(),
{
    if data.len() == 0 {
        Seq::<char>::empty()
    } else if data.len() == 1 {
        spec_hex_byte(data[0])
    } else {
        spec_hex_list(data.drop_last()) + ", "@ + spec_hex_byte(data.last())
    }
}

/// The one-line log form of a message: the kind tag, then the channel and
/// data fields in fixed-width columns, then the drum name; a note-on ends
/// with a bar whose length grows with the velocity.
pub open spec fn spec_describe(m: MidiMessage) -> Seq<char> {
    match m {
        MidiMessage::NoteOn { channel, note, velocity } => "NOTE ON   ch:"@ + spec_pad(
            spec_dec(channel as nat),
            2,
        ) + " note:"@ + spec_pad(spec_dec(note as nat), 3) + " vel:"@ + spec_pad(
            spec_dec(velocity as nat),
            3,
        ) + " "@ + spec_pad(spec_drum_name(note), 16) + " "@ + spec_repeat(
            "\u{2588}"@,
            (velocity as nat * 40 / 127) as nat,
        ),
        MidiMessage::NoteOff { channel, note, velocity } => "NOTE OFF  ch:"@ + spec_pad(
            spec_dec(channel as nat),
            2,
        ) + " note:"@ + spec_pad(spec_dec(note as nat), 3) + " vel:"@ + spec_pad(
            spec_dec(velocity as nat),
            3,
        ) + " "@ + spec_drum_name(note),
        MidiMessage::PolyAftertouch { channel, note, pressure } => "CHOKE     ch:"@ + spec_pad(
            spec_dec(channel as nat),
            2,
        ) + " note:"@ + spec_pad(spec_dec(note as nat), 3) + " prs:"@ + spec_pad(
            spec_dec(pressure as nat),
            3,
        ) + " "@ + spec_drum_name(note),
        MidiMessage::ControlChange { channel, controller, value } => "CC        ch:"@ + spec_pad(
            spec_dec(channel as nat),
            2,
        ) + " cc:"@ + spec_pad(spec_dec(controller as nat), 3) + "  val:"@ + spec_pad(
            spec_dec(value as nat),
            3,
        ) + " "@ + (if controller == 4 {
            "HH Pedal"@
        } else {
            ""@
        }),
        MidiMessage::SystemRealtime { status } => "SYSTEM    "@ + spec_realtime_name(status),
        MidiMessage::Other { data } => "OTHER     ["@ + spec_hex_list(data@) + "]"@,
    }
}

/// A byte value in a left-aligned column of the given width.
fn dec_pad(value: u8, width: usize) -> (r: String)
    ensures
        r@ == spec_pad(spec_dec(value as nat), width as nat),
{
    pad_to(dec_u64(value as u64), width)
}

impl MidiMessage {
    /// The one-line log form of this message, as shown in a monitor or hit
    /// log: the kind tag, fixed-width channel and data columns, and the drum
    /// name (with a velocity bar for a note-on).
    pub fn describe(&self) -> (r: String)
        ensures
            r@ == spec_describe(*self),
    {
        match self {
            MidiMessage::NoteOn { channel, note, velocity } => {
                let s = String::from_str("NOTE ON   ch:");
                let s = s.concat(dec_pad(*channel, 2).as_str());
                let s = s.concat(" note:");
                let s = s.concat(dec_pad(*note, 3).as_str());
                let s = s.concat(" vel:");
                let s = s.concat(dec_pad(*velocity, 3).as_str());
                let s = s.concat(" ");
                let name = pad_to(String::from_str(drum_name(*note)), 16);
                let s = s.concat(name.as_str());
                let s = s.concat(" ");
                let bar_len = (*velocity as usize) * 40 / 127;
                let bar = repeat_str("\u{2588}", bar_len);
                let s = s.concat(bar.as_str());
                s
            },
            MidiMessage::NoteOff { channel, note, velocity } => {
                let s = String::from_str("NOTE OFF  ch:");
                let s = s.concat(dec_pad(*channel, 2).as_str());
                let s = s.concat(" note:");
                let s = s.concat(dec_pad(*note, 3).as_str());
                let s = s.concat(" vel:");
                let s = s.concat(dec_pad(*velocity, 3).as_str());
                let s = s.concat(" ");
                let s = s.concat(drum_name(*note));
                s
            },
            MidiMessage::PolyAftertouch { channel, note, pressure } => {
                let s = String::from_str("CHOKE     ch:");
                let s = s.concat(dec_pad(*channel, 2).as_str());
                let s = s.concat(" note:");
                let s = s.concat(dec_pad(*note, 3).as_str());
                let s = s.concat(" prs:");
                let s = s.concat(dec_pad(*pressure, 3).as_str());
                let s = s.concat(" ");
                let s = s.concat(drum_name(*note));
                s
            },
            MidiMessage::ControlChange { channel, controller, value } => {
                let s = String::from_str("CC        ch:");
                let s = s.concat(dec_pad(*channel, 2).as_str());
                let s = s.concat(" cc:");
                let s = s.concat(dec_pad(*controller, 3).as_str());
                let s = s.concat("  val:");
                let s = s.concat(dec_pad(*value, 3).as_str());
                let s = s.concat(" ");
                let s = if *controller == 4 {
                    s.concat("HH Pedal")
                } else {
                    s.concat("")
                };
                s
            },
            MidiMessage::SystemRealtime { status } => {
                let s = String::from_str("SYSTEM    ");
                let s = match status {
                    0xf8 => s.concat("Clock"),
                    0xfa => s.concat("Start"),
                    0xfb => s.concat("Continue"),
                    0xfc => s.concat("Stop"),
                    0xfe => s.concat("Active Sensing"),
                    0xff => s.concat("Reset"),
                    _ => s.concat("Unknown"),
                };
                s
            },
            MidiMessage::Other { data } => {
                let s = String::from_str("OTHER     [");
                let mut body = String::new();
                let mut i: usize = 0;
                proof {
                    assert(data@.take(0) =~= Seq::<u8>::empty());
                }
                while i < data.len()
                    invariant
                        i <= data@.len(),
                        body@ == spec_hex_list(data@.take(i as int)),
                    decreases data@.len() - i,
                {
                    proof {
                        assert(data@.take(i + 1).drop_last() =~= data@.take(i as int));
                        assert(data@.take(i + 1).last() == data@[i as int]);
                    }
                    if i > 0 {
                        body.append(", ");
                    }
                    let h = hex_byte(data[i]);
                    body.append(h.as_str());
                    proof {
                        if i == 0 {
                            assert(body@ =~= spec_hex_list(data@.take(1)));
                        } else {
                            assert(body@ =~= spec_hex_list(data@.take(i + 1)));
                        }
                    }
                    i = i + 1;
                }
                proof {
                    assert(data@.take(data@.len() as int) =~= data@);
                }
                let s = s.concat(body.as_str());
                let s = s.concat("]");
                s
            },
        }
    }
}

/// A parsed MIDI message together with the timestamp (in microseconds) that
/// the input connection reported for it.
pub struct TimestampedMessage {
    pub timestamp_us: u64,
    pub message: MidiMessage,
}

/// A MIDI input device descriptor.
#[derive(Debug, Clone, PartialEq)]
pub struct MidiDevice {
    pub name: String,
    pub port_index: usize,
}

/// The port index of the MIDI device with the given name, if one is listed.
pub fn midi_port_by_name(devices: &[MidiDevice], name: &str) -> (r: Option<usize>)
    ensures
        match r {
            Some(port) => exists|i: int|
                0 <= i < devices@.len() && (#[trigger] devices@[i]).name@ == name@
                    && devices@[i].port_index == port,
            None => forall|i: int|
                0 <= i < devices@.len() ==> (#[trigger] devices@[i]).name@ != name@,
        },
{
    let mut i: usize = 0;
    while i < devices.len()
        invariant
            i <= devices@.len(),
            forall|j: int| 0 <= j < i ==> (#[trigger] devices@[j]).name@ != name@,
        decreases devices@.len() - i,
    {
        if crate::text::str_eq(devices[i].name.as_str(), name) {
            return Some(devices[i].port_index);
        }
        i = i + 1;
    }
    None
}

} // verus!
