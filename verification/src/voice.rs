//! A single playback voice: position, gain and the fade-out state machine.
//!
//! The PCM buffer itself is an opaque payload `B`; the voice tracks the
//! buffer's length in samples and decides, frame by frame, at which offset
//! and with which gain the embedding program should mix.
//!
//! Gains are exact rationals. The effective gain of a frame is
//! `gain * remaining_frames / total_frames` while a fade is running, which
//! ramps linearly to zero over exactly `total_frames` frames.

use vstd::prelude::*;

verus! {

/// A playback gain as an exact rational number `num / den`.
///
/// A trigger at MIDI velocity `v` plays at gain `v / 127`.
#[derive(Debug, Clone, Copy, PartialEq, Eq, Structural)]
pub struct Gain {
    pub num: u32,
    pub den: u32,
}

impl Gain {
    /// A gain is meaningful only with a positive denominator.
    pub open spec fn wf(self) -> bool {
        self.den > 0
    }

    /// The gain a trigger at the given MIDI velocity plays at: `velocity / 127`.
    pub fn from_velocity(velocity: u8) -> (r: Gain)
        ensures
            r == (Gain { num: velocity as u32, den: 127u32 }),
            r.wf(),
    {
        Gain { num: velocity as u32, den: 127 }
    }
}

/// Fade-out state for a voice being choked.
#[derive(Debug, Clone, Copy, PartialEq, Eq, Structural)]
pub struct Fade {
    pub remaining_frames: usize,
    pub total_frames: usize,
}

/// The gain of one output frame, as the exact rational
/// `num / den * fade_remaining / fade_total`.
///
/// For an unfaded frame `fade_remaining == fade_total == 1`, so the ratio is
/// the voice's static gain.
#[derive(Debug, Clone, Copy, PartialEq, Eq, Structural)]
pub struct FrameGain {
    pub num: u32,
    pub den: u32,
    pub fade_remaining: usize,
    pub fade_total: usize,
}

impl FrameGain {
    /// Numerator of the frame gain as one exact fraction.
    pub open spec fn ratio_num(self) -> int {
        self.num * self.fade_remaining
    }

    /// Denominator of the frame gain as one exact fraction.
    pub open spec fn ratio_den(self) -> int {
        self.den * self.fade_total
    }

    pub open spec fn wf(self) -> bool {
        self.den > 0 && self.fade_total > 0
    }

    /// True when the frame is silent.
    pub open spec fn is_zero(self) -> bool {
        self.ratio_num() == 0
    }
}

/// One in-flight playback of a sample buffer.
///
/// `samples` is the shared buffer itself, opaque to this library;
/// `sample_len` is its length in individual (interleaved) samples.
/// `position` is the offset of the next sample to read.
pub struct Voice<B> {
    pub samples: B,
    pub sample_len: usize,
    pub position: usize,
    pub gain: Gain,
    pub note: u8,
    pub fade: Option<Fade>,
}

/// What `frame_gain` returns for a voice in the given state. A fade with no
/// remaining frames yields an exact zero (with the ratio `0 / 1`, never a
/// zero denominator).
pub open spec fn spec_frame_gain_value(gain: Gain, fade: Option<Fade>) -> FrameGain {
    match fade {
        None => FrameGain { num: gain.num, den: gain.den, fade_remaining: 1, fade_total: 1 },
        Some(f) => {
            if f.remaining_frames == 0 {
                FrameGain { num: gain.num, den: gain.den, fade_remaining: 0, fade_total: 1 }
            } else {
                FrameGain {
                    num: gain.num,
                    den: gain.den,
                    fade_remaining: f.remaining_frames,
                    fade_total: f.total_frames,
                }
            }
        },
    }
}

/// The fade state after one call of `frame_gain`: an active fade loses one
/// remaining frame; anything else is unchanged.
pub open spec fn spec_frame_gain_next(fade: Option<Fade>) -> Option<Fade> {
    match fade {
        Some(f) if f.remaining_frames > 0 => Some(
            Fade { remaining_frames: (f.remaining_frames - 1) as usize, ..f },
        ),
        _ => fade,
    }
}

impl<B> Voice<B> {
    /// A voice is valid when its gain is and any fade has no more remaining
    /// frames than its total.
    pub open spec fn wf(self) -> bool {
        &&& self.gain.wf()
        &&& match self.fade {
            Some(f) => f.remaining_frames <= f.total_frames,
            None => true,
        }
    }

    /// A voice is done once it has read past its buffer, or once a fade has
    /// used up all its frames (even mid-sample).
    pub open spec fn spec_is_done(self) -> bool {
        ||| self.position >= self.sample_len
        ||| (self.fade matches Some(f) && f.remaining_frames == 0)
    }

    /// Create a voice at the start of the given buffer, unfaded.
    pub fn start(samples: B, sample_len: usize, gain: Gain, note: u8) -> (v: Voice<B>)
        requires
            gain.wf(),
        ensures
            v == (Voice { samples, sample_len, position: 0usize, gain, note, fade: None::<Fade> }),
            v.wf(),
    {
        Voice { samples, sample_len, position: 0, gain, note, fade: None }
    }

    /// True when this voice has finished playing all its samples or has
    /// completed its fade-out.
    pub fn is_done(&self) -> (r: bool)
        ensures
            r == self.spec_is_done(),
    {
        self.position >= self.sample_len || (match &self.fade {
            Some(f) => f.remaining_frames == 0,
            None => false,
        })
    }

    /// Start a fade-out over the given number of frames.
    ///
    /// If the voice is already fading with no more remaining frames than
    /// requested, the existing (shorter) fade wins; a fade in progress is
    /// never lengthened. A request for zero frames silences the voice at the
    /// next frame.
    pub fn start_fade(&mut self, fade_frames: usize)
        ensures
            final(self).samples == old(self).samples,
            final(self).sample_len == old(self).sample_len,
            final(self).position == old(self).position,
            final(self).gain == old(self).gain,
            final(self).note == old(self).note,
            final(self).fade == spec_start_fade(old(self).fade, fade_frames),
            old(self).wf() ==> final(self).wf(),
    {
        match &self.fade {
            Some(existing) if existing.remaining_frames <= fade_frames => {},
            _ => {
                self.fade = Some(
                    Fade { remaining_frames: fade_frames, total_frames: fade_frames },
                );
            },
        }
    }

    /// Compute the effective gain for the current frame, advancing the fade
    /// state if one is active.
    ///
    /// Without a fade the result is the static gain. With a fade of `N`
    /// total frames, successive calls yield `gain * N/N`, `gain * (N-1)/N`,
    /// ..., `gain * 1/N`, and then zero (at which point the voice is done).
    pub fn frame_gain(&mut self) -> (g: FrameGain)
        ensures
            g == spec_frame_gain_value(old(self).gain, old(self).fade),
            final(self).samples == old(self).samples,
            final(self).sample_len == old(self).sample_len,
            final(self).position == old(self).position,
            final(self).gain == old(self).gain,
            final(self).note == old(self).note,
            final(self).fade == spec_frame_gain_next(old(self).fade),
            old(self).wf() ==> final(self).wf() && g.wf(),
    {
        let gain = self.gain;
        match &mut self.fade {
            Some(f) => {
                if f.remaining_frames == 0 {
                    FrameGain { num: gain.num, den: gain.den, fade_remaining: 0, fade_total: 1 }
                } else {
                    let g = FrameGain {
                        num: gain.num,
                        den: gain.den,
                        fade_remaining: f.remaining_frames,
                        fade_total: f.total_frames,
                    };
                    f.remaining_frames = f.remaining_frames - 1;
                    g
                }
            },
            None => FrameGain { num: gain.num, den: gain.den, fade_remaining: 1, fade_total: 1 },
        }
    }
}

/// The fade state that `start_fade` leaves behind: a running fade with no
/// more remaining frames than requested stays; anything else is replaced by
/// a fresh fade of the requested length.
pub open spec fn spec_start_fade(fade: Option<Fade>, fade_frames: usize) -> Option<Fade> {
    match fade {
        Some(existing) if existing.remaining_frames <= fade_frames => fade,
        _ => Some(Fade { remaining_frames: fade_frames, total_frames: fade_frames }),
    }
}

/// The fade state after `calls` consecutive `frame_gain` calls.
pub open spec fn spec_fade_after(fade: Option<Fade>, calls: nat) -> Option<Fade>
    decreases calls,
{
    if calls == 0 {
        fade
    } else {
        spec_frame_gain_next(spec_fade_after(fade, (calls - 1) as nat))
    }
}

/// After `k` of the `frame_gain` calls that follow a fresh fade of `n`
/// frames, `n - k` frames remain.
pub proof fn lemma_fade_state(n: usize, k: nat)
    requires
        k <= n,
    ensures
        spec_fade_after(spec_start_fade(None, n), k) == Some(
            Fade { remaining_frames: (n - k) as usize, total_frames: n },
        ),
    decreases k,
{
    if k > 0 {
        lemma_fade_state(n, (k - 1) as nat);
    }
}

/// Starting a fade of `n` frames on an unfaded voice and then calling
/// `frame_gain` repeatedly yields the gains `gain * n/n`, `gain * (n-1)/n`,
/// ..., `gain * 1/n`, and on the `(n+1)`-th call an exact zero. Before the
/// `k`-th of those calls `n - k` fade frames remain, so after `n` calls the
/// fade is used up and the voice counts as done, whatever its position.
pub proof fn lemma_fade_ramp(gain: Gain, n: usize, k: nat)
    requires
        k <= n,
    ensures
        ({
            let before = spec_fade_after(spec_start_fade(None, n), k);
            let g = spec_frame_gain_value(gain, before);
            &&& before == Some(Fade { remaining_frames: (n - k) as usize, total_frames: n })
            &&& (k < n ==> g.ratio_num() == gain.num * (n - k) && g.ratio_den() == gain.den * n)
            &&& (k == n ==> g.is_zero())
        }),
{
    lemma_fade_state(n, k);
    if k == n {
        let before = spec_fade_after(spec_start_fade(None, n), k);
        let g = spec_frame_gain_value(gain, before);
        assert(g.fade_remaining == 0);
        assert(g.ratio_num() == 0);
    }
}

/// Starting a shorter fade while a longer one is running shortens it;
/// starting a longer (or equal) fade while a shorter one is running changes
/// nothing: the remaining length never increases, and it becomes the
/// requested length whenever that is shorter.
pub proof fn lemma_fade_never_lengthens(fade: Option<Fade>, running: Fade, fade_frames: usize)
    requires
        fade == Some(running),
    ensures
        ({
            let after = spec_start_fade(fade, fade_frames);
            &&& after matches Some(f) && f.remaining_frames <= running.remaining_frames
            &&& (fade_frames < running.remaining_frames ==> after == Some(
                Fade { remaining_frames: fade_frames, total_frames: fade_frames },
            ))
            &&& (fade_frames >= running.remaining_frames ==> after == fade)
        }),
{
}

} // verus!
