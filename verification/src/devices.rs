//! Audio output device descriptors and name-based lookup, used when
//! restoring a remembered device choice.

use vstd::prelude::*;

use crate::text::str_eq;

verus! {

/// An audio output device descriptor.
#[derive(Debug, Clone, PartialEq)]
pub struct AudioDevice {
    pub name: String,
    pub index: usize,
}

/// The index of the audio device with the given name, if one is listed.
pub fn audio_device_by_name(devices: &[AudioDevice], name: &str) -> (r: Option<usize>)
    ensures
        match r {
            Some(index) => exists|i: int|
                0 <= i < devices@.len() && (#[trigger] devices@[i]).name@ == name@
                    && devices@[i].index == index,
            None => forall|i: int|
                0 <= i < devices@.len() ==> (#[trigger] devices@[i]).name@ != name@,
        },
{
    let mut i: usize = 0;
    while i < devices.len()
        invariant
            i <= devices@.len(),
            forall|j: int| 0 <= j < i ==> (#[trigger] devices@[j]).name@ != name@,
        decreases devices@.len() - i,
    {
        if str_eq(devices[i].name.as_str(), name) {
            return Some(devices[i].index);
        }
        i = i + 1;
    }
    None
}

} // verus!
