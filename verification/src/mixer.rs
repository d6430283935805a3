//! The voice mixer: the consumer side of the event protocol.
//!
//! Once per output buffer the audio callback drains all pending commands,
//! then asks the mixer frame by frame where each live voice reads and at
//! which gain, and finally removes the voices that have finished. The mixer
//! holds every decision — polyphony cap, choke fades, bounds guards — while
//! the embedding program performs only the floating-point multiply-add.

use vstd::prelude::*;

use crate::voice::FrameGain;
use crate::voice::Gain;
use crate::voice::Voice;
use crate::voice::spec_frame_gain_next;
use crate::voice::spec_frame_gain_value;
use crate::voice::spec_start_fade;

verus! {

/// The most voices the mixer renders at once. Triggers beyond the cap are
/// dropped, favouring glitch-free audio over completeness.
pub const MAX_POLYPHONY: usize = 16;

/// A command sent from the input thread to the audio thread.
///
/// Commands are moved, never shared: a drained command is consumed. The
/// sample buffer travels as the opaque payload `B` together with its length.
pub enum AudioCommand<B> {
    /// Start a new voice with the given samples, gain, and source note.
    Trigger { samples: B, sample_len: usize, gain: Gain, note: u8 },
    /// Fade out every playing voice of the given note.
    Choke { note: u8, fade_frames: usize },
}

/// Where one voice reads during one output frame: `read_len` samples from
/// `start` (one per channel, cut short at the end of the buffer), mixed at
/// the given gain.
#[derive(Debug, Clone, Copy, PartialEq, Eq, Structural)]
pub struct FrameStep {
    pub start: usize,
    pub read_len: usize,
    pub gain: FrameGain,
}

/// The set of currently playing voices, capped at `max_polyphony`.
pub struct VoiceMixer<B> {
    voices: Vec<Voice<B>>,
    max_polyphony: usize,
}

/// The voice a `Trigger` command starts.
pub open spec fn spec_triggered_voice<B>(
    samples: B,
    sample_len: usize,
    gain: Gain,
    note: u8,
) -> Voice<B> {
    Voice { samples, sample_len, position: 0usize, gain, note, fade: None }
}

/// What a choke for `note` does to one voice: a matching voice gets a fade
/// of `fade_frames` frames (kept shorter if one already is), any other
/// voice is untouched.
pub open spec fn spec_choked_voice<B>(v: Voice<B>, note: u8, fade_frames: usize) -> Voice<B> {
    if v.note == note {
        Voice { fade: spec_start_fade(v.fade, fade_frames), ..v }
    } else {
        v
    }
}

/// What applying one command does to the voice list: a trigger appends a new
/// voice unless the polyphony cap is reached; a choke starts (or shortens)
/// a fade on every voice of the matching note.
pub open spec fn spec_apply_command<B>(
    voices: Seq<Voice<B>>,
    max_polyphony: usize,
    command: AudioCommand<B>,
) -> Seq<Voice<B>> {
    match command {
        AudioCommand::Trigger { samples, sample_len, gain, note } => {
            if voices.len() < max_polyphony {
                voices.push(spec_triggered_voice(samples, sample_len, gain, note))
            } else {
                voices
            }
        },
        AudioCommand::Choke { note, fade_frames } => Seq::new(
            voices.len(),
            |i: int| spec_choked_voice(voices[i], note, fade_frames),
        ),
    }
}

/// Extending a prefix by one element extends its filtered form by that
/// element exactly when the predicate holds of it.
proof fn lemma_filter_take_step<B>(s: Seq<Voice<B>>, pred: spec_fn(Voice<B>) -> bool, r: int)
    requires
        0 <= r < s.len(),
    ensures
        s.take(r + 1).filter(pred) == if pred(s[r]) {
            s.take(r).filter(pred).push(s[r])
        } else {
            s.take(r).filter(pred)
        },
{
    reveal(Seq::filter);
    assert(s.take(r + 1).drop_last() =~= s.take(r));
    assert(s.take(r + 1).last() == s[r]);
}

impl<B> VoiceMixer<B> {
    /// Every held voice is valid and the cap is respected.
    pub closed spec fn wf(self) -> bool {
        &&& self.voices.len() <= self.max_polyphony
        &&& forall|i: int| 0 <= i < self.voices.len() ==> (#[trigger] self.voices[i]).wf()
    }

    pub closed spec fn spec_voices(self) -> Seq<Voice<B>> {
        self.voices@
    }

    pub closed spec fn spec_max_polyphony(self) -> usize {
        self.max_polyphony
    }

    /// An empty mixer that will hold at most `max_polyphony` voices. The
    /// voice list is allocated up front, so the per-buffer path never
    /// allocates.
    pub fn new(max_polyphony: usize) -> (m: VoiceMixer<B>)
        ensures
            m.spec_voices() == Seq::<Voice<B>>::empty(),
            m.spec_max_polyphony() == max_polyphony,
            m.wf(),
    {
        VoiceMixer { voices: Vec::with_capacity(max_polyphony), max_polyphony }
    }

    /// Number of currently playing voices.
    pub fn voice_count(&self) -> (n: usize)
        ensures
            n == self.spec_voices().len(),
    {
        self.voices.len()
    }

    /// The voice at the given index.
    pub fn voice(&self, i: usize) -> (v: &Voice<B>)
        requires
            i < self.spec_voices().len(),
        ensures
            *v == self.spec_voices()[i as int],
    {
        &self.voices[i]
    }

    /// Apply one drained command: start a voice for a trigger (dropping it
    /// when the polyphony cap is reached), or fade every voice of a choked
    /// note (never lengthening a fade already in progress).
    pub fn apply_command(&mut self, command: AudioCommand<B>)
        requires
            old(self).wf(),
            command matches AudioCommand::Trigger { gain, .. } ==> gain.wf(),
        ensures
            final(self).spec_voices() == spec_apply_command(
                old(self).spec_voices(),
                old(self).spec_max_polyphony(),
                command,
            ),
            final(self).spec_max_polyphony() == old(self).spec_max_polyphony(),
            final(self).wf(),
    {
        match command {
            AudioCommand::Trigger { samples, sample_len, gain, note } => {
                if self.voices.len() < self.max_polyphony {
                    self.voices.push(Voice::start(samples, sample_len, gain, note));
                }
            },
            AudioCommand::Choke { note, fade_frames } => {
                let ghost voices0 = self.voices@;
                let n = self.voices.len();
                let mut i: usize = 0;
                while i < n
                    invariant
                        i <= n,
                        n == self.voices.len(),
                        n == voices0.len(),
                        self.max_polyphony == old(self).max_polyphony,
                        forall|j: int|
                            0 <= j < i ==> #[trigger] self.voices@[j] == spec_choked_voice(
                                voices0[j],
                                note,
                                fade_frames,
                            ),
                        forall|j: int| i <= j < n ==> #[trigger] self.voices@[j] == voices0[j],
                        forall|j: int| 0 <= j < n ==> (#[trigger] self.voices@[j]).wf(),
                    decreases n - i,
                {
                    if self.voices[i].note == note {
                        let voice = &mut self.voices[i];
                        voice.start_fade(fade_frames);
                    }
                    i = i + 1;
                }
                proof {
                    assert(self.voices@ =~= spec_apply_command(
                        voices0,
                        old(self).spec_max_polyphony(),
                        AudioCommand::<B>::Choke { note, fade_frames },
                    ));
                }
            },
        }
    }

    /// Drain the commands pending on the channel, applying each in arrival
    /// order. This is the once-per-buffer step that bounds command latency
    /// by one buffer period: at most `capacity` commands can be pending, and
    /// that many are taken, so everything pending when the drain starts is
    /// applied before rendering. A trigger whose gain carries a zero
    /// denominator (impossible through `Gain::from_velocity`) is discarded.
    pub fn drain(&mut self, consumer: &mut rtrb::Consumer<AudioCommand<B>>)
        requires
            old(self).wf(),
        ensures
            final(self).spec_max_polyphony() == old(self).spec_max_polyphony(),
            final(self).wf(),
    {
        let capacity = crate::queue::channel_capacity(consumer);
        let mut taken: usize = 0;
        while taken < capacity
            invariant
                self.wf(),
                self.max_polyphony == old(self).max_polyphony,
                taken <= capacity,
            decreases capacity - taken,
        {
            match crate::queue::recv_command(consumer) {
                Some(command) => {
                    let safe = match &command {
                        AudioCommand::Trigger { gain, .. } => gain.den > 0,
                        AudioCommand::Choke { .. } => true,
                    };
                    if safe {
                        self.apply_command(command);
                    }
                },
                None => {
                    return ;
                },
            }
            taken = taken + 1;
        }
    }

    /// Advance the voice at index `i` by one frame of `channels` samples.
    ///
    /// Returns nothing when the voice is done. Otherwise it returns where
    /// the frame reads — `read_len` samples from `start`, cut short at the
    /// end of the buffer — and at which gain, and moves the position one
    /// frame forward, counting down the fade if one is running.
    pub fn step_voice(&mut self, i: usize, channels: usize) -> (r: Option<FrameStep>)
        requires
            old(self).wf(),
            i < old(self).spec_voices().len(),
        ensures
            final(self).spec_max_polyphony() == old(self).spec_max_polyphony(),
            final(self).wf(),
            final(self).spec_voices().len() == old(self).spec_voices().len(),
            forall|j: int|
                0 <= j < old(self).spec_voices().len() && j != i ==> final(self).spec_voices()[j]
                    == old(self).spec_voices()[j],
            ({
                let v = old(self).spec_voices()[i as int];
                let v1 = final(self).spec_voices()[i as int];
                match r {
                    None => v.spec_is_done() && v1 == v,
                    Some(step) => {
                        &&& !v.spec_is_done()
                        &&& step.start == v.position
                        &&& step.read_len == if channels <= v.sample_len - v.position {
                            channels as int
                        } else {
                            v.sample_len - v.position
                        }
                        &&& step.gain == spec_frame_gain_value(v.gain, v.fade)
                        &&& step.gain.wf()
                        &&& v1.samples == v.samples
                        &&& v1.sample_len == v.sample_len
                        &&& v1.gain == v.gain
                        &&& v1.note == v.note
                        &&& v1.fade == spec_frame_gain_next(v.fade)
                        &&& v1.position == if v.position + channels <= usize::MAX {
                            v.position + channels
                        } else {
                            usize::MAX as int
                        }
                    },
                }
            }),
    {
        let voice = &mut self.voices[i];
        if voice.position >= voice.sample_len || (match &voice.fade {
            Some(f) => f.remaining_frames == 0,
            None => false,
        }) {
            return None;
        }
        let gain = voice.frame_gain();
        let start = voice.position;
        let left = voice.sample_len - start;
        let read_len = if channels <= left {
            channels
        } else {
            left
        };
        if voice.position <= usize::MAX - channels {
            voice.position = voice.position + channels;
        } else {
            voice.position = usize::MAX;
        }
        Some(FrameStep { start, read_len, gain })
    }

    /// Remove every voice that is done, keeping the others in order. Runs in
    /// place: no allocation happens here.
    pub fn remove_finished(&mut self)
        requires
            old(self).wf(),
        ensures
            final(self).spec_max_polyphony() == old(self).spec_max_polyphony(),
            final(self).wf(),
            final(self).spec_voices() == old(self).spec_voices().filter(
                |v: Voice<B>| !v.spec_is_done(),
            ),
    {
        let ghost voices0 = self.voices@;
        let ghost pred: spec_fn(Voice<B>) -> bool = (|v: Voice<B>| !v.spec_is_done());
        let mut i: usize = 0;
        let ghost mut r: int = 0;
        proof {
            assert(voices0.take(0).filter(pred) =~= Seq::<Voice<B>>::empty());
            assert(voices0.skip(0) =~= voices0);
            assert(self.voices@ =~= voices0.take(0).filter(pred) + voices0.skip(0));
        }
        while i < self.voices.len()
            invariant
                pred == (|v: Voice<B>| !v.spec_is_done()),
                forall|v: Voice<B>| #[trigger] pred(v) == !v.spec_is_done(),
                0 <= r <= voices0.len(),
                self.voices@ == voices0.take(r).filter(pred) + voices0.skip(r),
                i == voices0.take(r).filter(pred).len(),
                self.max_polyphony == old(self).max_polyphony,
                self.voices@.len() <= voices0.len(),
                voices0.len() <= self.max_polyphony,
                forall|j: int| 0 <= j < voices0.len() ==> (#[trigger] voices0[j]).wf(),
                forall|j: int|
                    0 <= j < self.voices@.len() ==> (#[trigger] self.voices@[j]).wf(),
            decreases voices0.len() - r,
        {
            proof {
                assert(voices0.skip(r).len() > 0);
                assert(self.voices@[i as int] == voices0.skip(r)[0]);
                assert(voices0.skip(r)[0] == voices0[r]);
                lemma_filter_take_step(voices0, pred, r);
            }
            let done = self.voices[i].is_done();
            proof {
                assert(voices0[r].spec_is_done() == done);
                assert(pred(voices0[r]) == !voices0[r].spec_is_done());
            }
            if done {
                self.voices.remove(i);
                proof {
                    assert(self.voices@ =~= voices0.take(r + 1).filter(pred) + voices0.skip(
                        r + 1,
                    ));
                }
            } else {
                i = i + 1;
                proof {
                    assert(self.voices@ =~= voices0.take(r + 1).filter(pred) + voices0.skip(
                        r + 1,
                    ));
                }
            }
            proof {
                r = r + 1;
            }
        }
        proof {
            assert(voices0.skip(r).len() == 0);
            assert(r == voices0.len());
            assert(voices0.take(r) =~= voices0);
            assert(self.voices@ =~= voices0.filter(pred));
            voices0.lemma_filter_len(pred);
        }
    }
}

} // verus!
