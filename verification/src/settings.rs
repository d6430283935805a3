//! Persisted user settings: the last-used kit, devices and directories.
//! Reading and writing the settings file is the embedding program's job;
//! this is the data and its defaults.

use vstd::prelude::*;

use vstd::string::StringExecFns;

verus! {

/// The kit repository configured out of the box.
pub const DEFAULT_KIT_REPO: &'static str = "backmeupplz/drumkit-kits";

/// The default repository list: just the built-in repository.
pub fn default_kit_repos() -> (r: Vec<String>)
    ensures
        r@.len() == 1,
        r@[0]@ == DEFAULT_KIT_REPO@,
{
    let mut r: Vec<String> = Vec::new();
    r.push(String::from_str(DEFAULT_KIT_REPO));
    r
}

/// Persisted user settings: last-used kit, audio device, MIDI device, extra
/// search directories and kit repositories.
#[derive(Debug, Clone)]
pub struct Settings {
    pub kit_path: Option<String>,
    pub audio_device: Option<String>,
    pub midi_device: Option<String>,
    pub extra_kit_dirs: Vec<String>,
    pub extra_mapping_dirs: Vec<String>,
    pub kit_repos: Vec<String>,
}

impl Default for Settings {
    /// Fresh settings: no remembered choices, no extra directories, and the
    /// built-in kit repository.
    fn default() -> (s: Settings)
        ensures
            s.kit_path is None,
            s.audio_device is None,
            s.midi_device is None,
            s.extra_kit_dirs@.len() == 0,
            s.extra_mapping_dirs@.len() == 0,
            s.kit_repos@.len() == 1 && s.kit_repos@[0]@ == DEFAULT_KIT_REPO@,
    {
        Settings {
            kit_path: None,
            audio_device: None,
            midi_device: None,
            extra_kit_dirs: Vec::new(),
            extra_mapping_dirs: Vec::new(),
            kit_repos: default_kit_repos(),
        }
    }
}

} // verus!
