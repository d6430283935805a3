//! Note mappings: display names for MIDI notes and the choke rules the
//! input dispatcher consults (which notes a struck note silences).
//!
//! A mapping is plain data, replaced as a unit at runtime. The mapping-file
//! syntax itself (TOML) is a collaborator concern; this module holds the
//! mapping's content and the built-in presets.

use vstd::prelude::*;

use vstd::string::StringExecFns;

verus! {

/// Where a mapping was loaded from.
#[derive(Debug, Clone, PartialEq)]
pub enum MappingSource {
    BuiltIn,
    UserFile(String),
    KitFile(String),
}

/// A mapping from MIDI note numbers to display names and choke targets.
pub struct NoteMapping {
    pub name: String,
    pub notes: Vec<Option<String>>,
    pub chokes: Vec<Vec<u8>>,
    pub source: MappingSource,
}

impl NoteMapping {
    /// One slot per possible note byte.
    pub open spec fn wf(self) -> bool {
        &&& self.notes@.len() == 256
        &&& self.chokes@.len() == 256
    }

    /// The name entry of a note, if it has one.
    pub open spec fn spec_note_name(self, note: u8) -> Option<Seq<char>> {
        match self.notes@[note as int] {
            Some(s) => Some(s@),
            None => None,
        }
    }

    /// The choke targets of a note (empty when it chokes nothing).
    pub open spec fn spec_choke_targets(self, note: u8) -> Seq<u8> {
        self.chokes@[note as int]@
    }

    /// An empty mapping with the given name and source.
    pub fn new(name: String, source: MappingSource) -> (m: NoteMapping)
        ensures
            m.wf(),
            m.name == name,
            m.source == source,
            forall|n: u8| m.spec_note_name(n) is None,
            forall|n: u8| m.spec_choke_targets(n) == Seq::<u8>::empty(),
    {
        let mut notes: Vec<Option<String>> = Vec::new();
        let mut chokes: Vec<Vec<u8>> = Vec::new();
        let mut i: usize = 0;
        while i < 256
            invariant
                i <= 256,
                notes@.len() == i,
                chokes@.len() == i,
                forall|j: int| 0 <= j < i ==> (#[trigger] notes@[j]) is None,
                forall|j: int| 0 <= j < i ==> (#[trigger] chokes@[j])@.len() == 0,
            decreases 256 - i,
        {
            notes.push(None);
            chokes.push(Vec::new());
            i = i + 1;
        }
        proof {
            assert(forall|n: u8| (#[trigger] chokes@[n as int])@ =~= Seq::<u8>::empty());
        }
        NoteMapping { name, notes, chokes, source }
    }

    /// The display name of a note, falling back to "Unknown".
    pub fn drum_name(&self, note: u8) -> (r: &str)
        requires
            self.wf(),
        ensures
            r@ == match self.spec_note_name(note) {
                Some(s) => s,
                None => "Unknown"@,
            },
    {
        match self.notes[note as usize].as_ref() {
            Some(s) => s.as_str(),
            None => "Unknown",
        }
    }

    /// The choke targets of a note: the notes a hit on `note` silences.
    pub fn choke_targets(&self, note: u8) -> (r: &[u8])
        requires
            self.wf(),
        ensures
            r@ == self.spec_choke_targets(note),
    {
        self.chokes[note as usize].as_slice()
    }

    /// Set or replace the display name of a note.
    pub fn set_note_name(&mut self, note: u8, name: String)
        requires
            old(self).wf(),
        ensures
            final(self).wf(),
            final(self).name == old(self).name,
            final(self).source == old(self).source,
            final(self).spec_note_name(note) == Some(name@),
            forall|n: u8|
                n != note ==> final(self).spec_note_name(n) == old(self).spec_note_name(n),
            forall|n: u8| final(self).spec_choke_targets(n) == old(self).spec_choke_targets(n),
    {
        let slot = &mut self.notes[note as usize];
        *slot = Some(name);
    }

    /// Set or replace the choke targets of a note.
    pub fn set_choke_targets(&mut self, note: u8, targets: Vec<u8>)
        requires
            old(self).wf(),
        ensures
            final(self).wf(),
            final(self).name == old(self).name,
            final(self).source == old(self).source,
            final(self).spec_choke_targets(note) == targets@,
            forall|n: u8|
                n != note ==> final(self).spec_choke_targets(n) == old(self).spec_choke_targets(
                    n,
                ),
            forall|n: u8| final(self).spec_note_name(n) == old(self).spec_note_name(n),
    {
        let slot = &mut self.chokes[note as usize];
        *slot = targets;
    }

    /// The notes that have a name, with their names, in ascending note
    /// order (for serialisation).
    pub fn note_entries(&self) -> (r: Vec<(u8, String)>)
        requires
            self.wf(),
        ensures
            forall|i: int, j: int| 0 <= i < j < r@.len() ==> r@[i].0 < r@[j].0,
            forall|i: int|
                0 <= i < r@.len() ==> self.spec_note_name(#[trigger] r@[i].0) == Some(r@[i].1@),
            forall|n: u8| self.spec_note_name(n) is Some ==> exists|i: int|
                0 <= i < r@.len() && (#[trigger] r@[i].0) == n,
    {
        let mut r: Vec<(u8, String)> = Vec::new();
        let mut i: usize = 0;
        while i < 256
            invariant
                i <= 256,
                self.wf(),
                forall|a: int, b: int| 0 <= a < b < r@.len() ==> r@[a].0 < r@[b].0,
                forall|a: int| 0 <= a < r@.len() ==> (#[trigger] r@[a].0) < i,
                forall|a: int|
                    0 <= a < r@.len() ==> self.spec_note_name(#[trigger] r@[a].0) == Some(
                        r@[a].1@,
                    ),
                forall|n: u8|
                    n < i && self.spec_note_name(n) is Some ==> exists|a: int|
                        0 <= a < r@.len() && (#[trigger] r@[a].0) == n,
            decreases 256 - i,
        {
            let ghost r0 = r@;
            match self.notes[i].as_ref() {
                Some(s) => {
                    r.push((i as u8, s.clone()));
                    proof {
                        assert(forall|a: int| 0 <= a < r0.len() ==> r@[a] == #[trigger] r0[a]);
                        assert(r@[r0.len() as int].0 == i as u8);
                    }
                },
                None => {},
            }
            i = i + 1;
        }
        r
    }

    /// The notes that have choke targets, with their targets, in ascending
    /// note order (for serialisation).
    pub fn choke_entries(&self) -> (r: Vec<(u8, Vec<u8>)>)
        requires
            self.wf(),
        ensures
            forall|i: int, j: int| 0 <= i < j < r@.len() ==> r@[i].0 < r@[j].0,
            forall|i: int|
                0 <= i < r@.len() ==> self.spec_choke_targets(#[trigger] r@[i].0) == r@[i].1@
                    && r@[i].1@.len() > 0,
            forall|n: u8| self.spec_choke_targets(n).len() > 0 ==> exists|i: int|
                0 <= i < r@.len() && (#[trigger] r@[i].0) == n,
    {
        let mut r: Vec<(u8, Vec<u8>)> = Vec::new();
        let mut i: usize = 0;
        while i < 256
            invariant
                i <= 256,
                self.wf(),
                forall|a: int, b: int| 0 <= a < b < r@.len() ==> r@[a].0 < r@[b].0,
                forall|a: int| 0 <= a < r@.len() ==> (#[trigger] r@[a].0) < i,
                forall|a: int|
                    0 <= a < r@.len() ==> self.spec_choke_targets(#[trigger] r@[a].0) == r@[a].1@
                        && r@[a].1@.len() > 0,
                forall|n: u8|
                    n < i && self.spec_choke_targets(n).len() > 0 ==> exists|a: int|
                        0 <= a < r@.len() && (#[trigger] r@[a].0) == n,
            decreases 256 - i,
        {
            let ghost r0 = r@;
            if self.chokes[i].len() > 0 {
                let targets = self.chokes[i].clone();
                r.push((i as u8, targets));
                proof {
                    assert(forall|a: int| 0 <= a < r0.len() ==> r@[a] == #[trigger] r0[a]);
                    assert(r@[r0.len() as int].0 == i as u8);
                }
            }
            i = i + 1;
        }
        r
    }
}

/// The General MIDI drum names carried by the built-in mapping (plus two
/// extended hi-hat notes used by some drum modules).
pub open spec fn spec_gm_name(note: u8) -> Option<Seq<char>> {
    match note {
        21u8 => Some("HH Splash"@),
        23u8 => Some("HH Half-Open"@),
        35u8 => Some("Bass Drum 2"@),
        36u8 => Some("Kick"@),
        37u8 => Some("Side Stick"@),
        38u8 => Some("Snare"@),
        39u8 => Some("Hand Clap"@),
        40u8 => Some("Snare Rim"@),
        41u8 => Some("Low Floor Tom"@),
        42u8 => Some("Closed Hi-Hat"@),
        43u8 => Some("High Floor Tom"@),
        44u8 => Some("Pedal Hi-Hat"@),
        45u8 => Some("Low Tom"@),
        46u8 => Some("Open Hi-Hat"@),
        47u8 => Some("Low-Mid Tom"@),
        48u8 => Some("Hi-Mid Tom"@),
        49u8 => Some("Crash 1"@),
        50u8 => Some("High Tom"@),
        51u8 => Some("Ride"@),
        52u8 => Some("Chinese Cymbal"@),
        53u8 => Some("Ride Bell"@),
        54u8 => Some("Tambourine"@),
        55u8 => Some("Splash Cymbal"@),
        56u8 => Some("Cowbell"@),
        57u8 => Some("Crash 2"@),
        58u8 => Some("Vibraslap"@),
        59u8 => Some("Ride 2"@),
        60u8 => Some("Hi Bongo"@),
        61u8 => Some("Low Bongo"@),
        62u8 => Some("Mute Hi Conga"@),
        63u8 => Some("Open Hi Conga"@),
        64u8 => Some("Low Conga"@),
        65u8 => Some("High Timbale"@),
        66u8 => Some("Low Timbale"@),
        67u8 => Some("High Agogo"@),
        68u8 => Some("Low Agogo"@),
        69u8 => Some("Cabasa"@),
        70u8 => Some("Maracas"@),
        71u8 => Some("Short Whistle"@),
        72u8 => Some("Long Whistle"@),
        73u8 => Some("Short Guiro"@),
        74u8 => Some("Long Guiro"@),
        75u8 => Some("Claves"@),
        76u8 => Some("Hi Wood Block"@),
        77u8 => Some("Low Wood Block"@),
        78u8 => Some("Mute Cuica"@),
        79u8 => Some("Open Cuica"@),
        80u8 => Some("Mute Triangle"@),
        81u8 => Some("Open Triangle"@),
        _ => None,
    }
}

/// The hi-hat choke topology of the built-in mapping: closed and pedal
/// hi-hat choke the open and half-open ones; the half-open chokes only the
/// fully open one.
pub open spec fn spec_gm_chokes(note: u8) -> Seq<u8> {
    match note {
        42u8 => seq![46u8, 23u8, 21u8],
        44u8 => seq![46u8, 23u8, 21u8],
        23u8 => seq![46u8],
        _ => Seq::<u8>::empty(),
    }
}

/// The built-in name for one note, if the General MIDI mapping has one.
fn gm_note_name(note: u8) -> (r: Option<&'static str>)
    ensures
        match r {
            Some(s) => spec_gm_name(note) == Some(s@),
            None => spec_gm_name(note) is None,
        },
{
    match note {
        21 => Some("HH Splash"),
        23 => Some("HH Half-Open"),
        35 => Some("Bass Drum 2"),
        36 => Some("Kick"),
        37 => Some("Side Stick"),
        38 => Some("Snare"),
        39 => Some("Hand Clap"),
        40 => Some("Snare Rim"),
        41 => Some("Low Floor Tom"),
        42 => Some("Closed Hi-Hat"),
        43 => Some("High Floor Tom"),
        44 => Some("Pedal Hi-Hat"),
        45 => Some("Low Tom"),
        46 => Some("Open Hi-Hat"),
        47 => Some("Low-Mid Tom"),
        48 => Some("Hi-Mid Tom"),
        49 => Some("Crash 1"),
        50 => Some("High Tom"),
        51 => Some("Ride"),
        52 => Some("Chinese Cymbal"),
        53 => Some("Ride Bell"),
        54 => Some("Tambourine"),
        55 => Some("Splash Cymbal"),
        56 => Some("Cowbell"),
        57 => Some("Crash 2"),
        58 => Some("Vibraslap"),
        59 => Some("Ride 2"),
        60 => Some("Hi Bongo"),
        61 => Some("Low Bongo"),
        62 => Some("Mute Hi Conga"),
        63 => Some("Open Hi Conga"),
        64 => Some("Low Conga"),
        65 => Some("High Timbale"),
        66 => Some("Low Timbale"),
        67 => Some("High Agogo"),
        68 => Some("Low Agogo"),
        69 => Some("Cabasa"),
        70 => Some("Maracas"),
        71 => Some("Short Whistle"),
        72 => Some("Long Whistle"),
        73 => Some("Short Guiro"),
        74 => Some("Long Guiro"),
        75 => Some("Claves"),
        76 => Some("Hi Wood Block"),
        77 => Some("Low Wood Block"),
        78 => Some("Mute Cuica"),
        79 => Some("Open Cuica"),
        80 => Some("Mute Triangle"),
        81 => Some("Open Triangle"),
        _ => None,
    }
}

/// The built-in choke targets for one note.
fn gm_choke_targets(note: u8) -> (r: Vec<u8>)
    ensures
        r@ == spec_gm_chokes(note),
{
    let mut r: Vec<u8> = Vec::new();
    if note == 42 || note == 44 {
        r.push(46);
        r.push(23);
        r.push(21);
        proof {
            assert(r@ =~= seq![46u8, 23u8, 21u8]);
        }
    } else if note == 23 {
        r.push(46);
        proof {
            assert(r@ =~= seq![46u8]);
        }
    } else {
        proof {
            assert(r@ =~= Seq::<u8>::empty());
        }
    }
    r
}

/// The hardcoded fallback mapping: the General MIDI drum names and the
/// hi-hat choke rules, always available whatever happens to mapping files.
pub fn fallback_mapping() -> (m: NoteMapping)
    ensures
        m.wf(),
        m.name@ == "General MIDI"@,
        m.source == MappingSource::BuiltIn,
        forall|n: u8| m.spec_note_name(n) == spec_gm_name(n),
        forall|n: u8| m.spec_choke_targets(n) == spec_gm_chokes(n),
{
    let mut notes: Vec<Option<String>> = Vec::new();
    let mut chokes: Vec<Vec<u8>> = Vec::new();
    let mut i: usize = 0;
    while i < 256
        invariant
            i <= 256,
            notes@.len() == i,
            chokes@.len() == i,
            forall|j: int|
                0 <= j < i ==> match #[trigger] notes@[j] {
                    Some(s) => spec_gm_name(j as u8) == Some(s@),
                    None => spec_gm_name(j as u8) is None,
                },
            forall|j: int| 0 <= j < i ==> (#[trigger] chokes@[j])@ == spec_gm_chokes(j as u8),
        decreases 256 - i,
    {
        match gm_note_name(i as u8) {
            Some(s) => {
                notes.push(Some(String::from_str(s)));
            },
            None => {
                notes.push(None);
            },
        }
        chokes.push(gm_choke_targets(i as u8));
        i = i + 1;
    }
    NoteMapping {
        name: String::from_str("General MIDI"),
        notes,
        chokes,
        source: MappingSource::BuiltIn,
    }
}

/// The default mapping: the built-in General MIDI preset.
pub fn default_mapping() -> (m: NoteMapping)
    ensures
        m.wf(),
        m.name@ == "General MIDI"@,
        m.source == MappingSource::BuiltIn,
        forall|n: u8| m.spec_note_name(n) == spec_gm_name(n),
        forall|n: u8| m.spec_choke_targets(n) == spec_gm_chokes(n),
{
    fallback_mapping()
}

/// The pad names of the second built-in preset, for an Alesis Nitro Max
/// module.
pub open spec fn spec_alesis_name(note: u8) -> Option<Seq<char>> {
    match note {
        21u8 => Some("HH Splash"@),
        23u8 => Some("HH Half-Open"@),
        36u8 => Some("Kick"@),
        38u8 => Some("Snare"@),
        40u8 => Some("Snare (Rim)"@),
        42u8 => Some("Closed Hi-Hat"@),
        43u8 => Some("Tom 3"@),
        44u8 => Some("Pedal Hi-Hat"@),
        45u8 => Some("Tom 2"@),
        46u8 => Some("Open Hi-Hat"@),
        47u8 => Some("Tom 2 (Rim)"@),
        48u8 => Some("Tom 1"@),
        49u8 => Some("Crash 1"@),
        50u8 => Some("Tom 1 (Rim)"@),
        51u8 => Some("Ride"@),
        53u8 => Some("Ride Bell"@),
        55u8 => Some("Crash 2"@),
        58u8 => Some("Tom 3 (Rim)"@),
        _ => None,
    }
}

/// The built-in Alesis name for one note.
fn alesis_note_name(note: u8) -> (r: Option<&'static str>)
    ensures
        match r {
            Some(s) => spec_alesis_name(note) == Some(s@),
            None => spec_alesis_name(note) is None,
        },
{
    match note {
        21 => Some("HH Splash"),
        23 => Some("HH Half-Open"),
        36 => Some("Kick"),
        38 => Some("Snare"),
        40 => Some("Snare (Rim)"),
        42 => Some("Closed Hi-Hat"),
        43 => Some("Tom 3"),
        44 => Some("Pedal Hi-Hat"),
        45 => Some("Tom 2"),
        46 => Some("Open Hi-Hat"),
        47 => Some("Tom 2 (Rim)"),
        48 => Some("Tom 1"),
        49 => Some("Crash 1"),
        50 => Some("Tom 1 (Rim)"),
        51 => Some("Ride"),
        53 => Some("Ride Bell"),
        55 => Some("Crash 2"),
        58 => Some("Tom 3 (Rim)"),
        _ => None,
    }
}

/// The second built-in preset: pad names for an Alesis Nitro Max module,
/// with the same hi-hat choke topology as the General MIDI preset.
pub fn alesis_mapping() -> (m: NoteMapping)
    ensures
        m.wf(),
        m.name@ == "Alesis Nitro Max"@,
        m.source == MappingSource::BuiltIn,
        forall|n: u8| m.spec_note_name(n) == spec_alesis_name(n),
        forall|n: u8| m.spec_choke_targets(n) == spec_gm_chokes(n),
{
    let mut notes: Vec<Option<String>> = Vec::new();
    let mut chokes: Vec<Vec<u8>> = Vec::new();
    let mut i: usize = 0;
    while i < 256
        invariant
            i <= 256,
            notes@.len() == i,
            chokes@.len() == i,
            forall|j: int|
                0 <= j < i ==> match #[trigger] notes@[j] {
                    Some(s) => spec_alesis_name(j as u8) == Some(s@),
                    None => spec_alesis_name(j as u8) is None,
                },
            forall|j: int| 0 <= j < i ==> (#[trigger] chokes@[j])@ == spec_gm_chokes(j as u8),
        decreases 256 - i,
    {
        match alesis_note_name(i as u8) {
            Some(s) => {
                notes.push(Some(String::from_str(s)));
            },
            None => {
                notes.push(None);
            },
        }
        chokes.push(gm_choke_targets(i as u8));
        i = i + 1;
    }
    NoteMapping {
        name: String::from_str("Alesis Nitro Max"),
        notes,
        chokes,
        source: MappingSource::BuiltIn,
    }
}

/// The built-in presets: General MIDI first, then the Alesis Nitro Max map.
pub fn builtin_mappings() -> (r: Vec<NoteMapping>)
    ensures
        r@.len() == 2,
        r@[0].wf(),
        r@[0].name@ == "General MIDI"@,
        forall|n: u8| r@[0].spec_note_name(n) == spec_gm_name(n),
        forall|n: u8| r@[0].spec_choke_targets(n) == spec_gm_chokes(n),
        r@[1].wf(),
        r@[1].name@ == "Alesis Nitro Max"@,
        forall|n: u8| r@[1].spec_note_name(n) == spec_alesis_name(n),
        forall|n: u8| r@[1].spec_choke_targets(n) == spec_gm_chokes(n),
{
    let mut r: Vec<NoteMapping> = Vec::new();
    r.push(default_mapping());
    r.push(alesis_mapping());
    r
}

} // verus!
