//! Kits: per-note groups of sample variants, velocity-layer and round-robin
//! selection, the kit builder, and sample filename parsing.

use vstd::prelude::*;
use std::sync::atomic::AtomicUsize;
use std::sync::atomic::Ordering;

use crate::text::spec_parse_u8;
use crate::text::spec_split;
use crate::text::lemma_split_nonempty;
use crate::text::parse_u8_chars;
use crate::text::split_chars;
use crate::text::str_to_chars;
use crate::text::chars_ends_with;

verus! {

/// Metadata extracted from a sample filename: the MIDI note and the
/// optional velocity layer and round-robin index.
#[derive(Debug, Clone, PartialEq)]
pub struct SampleFileInfo {
    pub note: u8,
    pub velocity_layer: Option<u8>,
    pub round_robin: Option<u8>,
}

/// One recording of a note: the PCM payload (opaque here), its length in
/// samples, and its place in the group.
pub struct SampleVariant<B> {
    pub samples: B,
    pub sample_len: usize,
    pub velocity_layer: u8,
    pub round_robin: u8,
}

/// All the variants loaded for one MIDI note, with a shared round-robin
/// cursor that successive selections advance.
pub struct NoteGroup<B> {
    pub variants: Vec<SampleVariant<B>>,
    pub max_velocity_layer: u8,
    pub max_round_robin: u8,
    pub rr_counter: AtomicUsize,
}

/// Ordering key of a variant: velocity layer first, round-robin second.
pub open spec fn variant_key<B>(v: SampleVariant<B>) -> int {
    v.velocity_layer * 256 + v.round_robin
}

/// A variant list sorted by (velocity layer, round-robin).
pub open spec fn sorted_variants<B>(vs: Seq<SampleVariant<B>>) -> bool {
    forall|i: int, j: int|
        0 <= i < j < vs.len() ==> variant_key(#[trigger] vs[i]) <= variant_key(#[trigger] vs[j])
}

/// The layer a velocity maps to: `clamp(ceil(v * layers / 127), 1, layers)`,
/// with the velocity itself clamped to at least 1. Velocity 1 always lands
/// on layer 1 and velocity 127 on the top layer.
pub open spec fn spec_layer(velocity: u8, max_layer: u8) -> int {
    let v: int = if velocity >= 1 {
        velocity as int
    } else {
        1
    };
    let raw = (v * max_layer + 126) / 127;
    if raw < 1 {
        1
    } else if raw > max_layer {
        max_layer as int
    } else {
        raw
    }
}

/// Map a MIDI velocity to a velocity layer in `1..=max_velocity_layer`.
pub fn velocity_layer(velocity: u8, max_velocity_layer: u8) -> (r: u8)
    requires
        max_velocity_layer >= 1,
    ensures
        r == spec_layer(velocity, max_velocity_layer),
        1 <= r <= max_velocity_layer,
{
    let v: u32 = if velocity >= 1 {
        velocity as u32
    } else {
        1
    };
    let m: u32 = max_velocity_layer as u32;
    proof {
        assert(v * m <= 255 * 255) by (nonlinear_arith)
            requires v <= 255 && m <= 255;
    }
    let raw: u32 = (v * m + 126) / 127;
    let clamped: u32 = if raw < 1 {
        1
    } else if raw > m {
        m
    } else {
        raw
    };
    clamped as u8
}

/// For every velocity the spec allows (1 to 127) the computed layer lies in
/// `1..=max_layer`; velocity 1 reaches layer 1 and velocity 127 reaches the
/// top layer, whatever the number of layers.
pub proof fn lemma_velocity_layer_range(velocity: u8, max_layer: u8)
    requires
        max_layer >= 1,
        1 <= velocity <= 127,
    ensures
        1 <= spec_layer(velocity, max_layer) <= max_layer,
        velocity == 1 && max_layer <= 127 ==> spec_layer(velocity, max_layer) == 1,
        velocity == 127 ==> spec_layer(velocity, max_layer) == max_layer,
{
    let v = velocity as int;
    let l = max_layer as int;
    assert((v * l + 126) / 127 <= l) by (nonlinear_arith)
        requires 1 <= v <= 127 && l >= 1;
    assert((v * l + 126) / 127 >= 1) by (nonlinear_arith)
        requires 1 <= v && l >= 1;
    if velocity == 1 && max_layer <= 127 {
        assert((1int * l + 126) / 127 == 1) by (nonlinear_arith)
            requires 1 <= l <= 127;
    }
    if velocity == 127 {
        assert((127int * l + 126) / 127 == l) by (nonlinear_arith)
            requires l >= 1;
    }
}

/// How many variants of the list sit at the given layer.
pub open spec fn count_at_layer<B>(vs: Seq<SampleVariant<B>>, layer: u8) -> nat
    decreases vs.len(),
{
    if vs.len() == 0 {
        0
    } else {
        (if vs[0].velocity_layer == layer {
            1nat
        } else {
            0nat
        }) + count_at_layer(vs.skip(1), layer)
    }
}

/// The index of the `n`-th variant (counting from zero) at the given layer.
pub open spec fn nth_at_layer<B>(vs: Seq<SampleVariant<B>>, layer: u8, n: nat) -> int
    decreases vs.len(),
{
    if vs.len() == 0 {
        0
    } else if vs[0].velocity_layer == layer {
        if n == 0 {
            0
        } else {
            1 + nth_at_layer(vs.skip(1), layer, (n - 1) as nat)
        }
    } else {
        1 + nth_at_layer(vs.skip(1), layer, n)
    }
}

/// The `n`-th variant at a layer exists, sits at that layer, and has exactly
/// `n` variants of that layer before it.
pub proof fn lemma_nth_at_layer<B>(vs: Seq<SampleVariant<B>>, layer: u8, n: nat)
    requires
        n < count_at_layer(vs, layer),
    ensures
        ({
            let idx = nth_at_layer(vs, layer, n);
            &&& 0 <= idx < vs.len()
            &&& vs[idx].velocity_layer == layer
            &&& count_at_layer(vs.take(idx), layer) == n
        }),
    decreases vs.len(),
{
    let idx = nth_at_layer(vs, layer, n);
    if vs[0].velocity_layer == layer {
        if n == 0 {
            assert(vs.take(0) =~= Seq::<SampleVariant<B>>::empty());
        } else {
            lemma_nth_at_layer(vs.skip(1), layer, (n - 1) as nat);
            let idx1 = nth_at_layer(vs.skip(1), layer, (n - 1) as nat);
            assert(vs.take(1 + idx1)[0] == vs[0]);
            assert(vs.take(1 + idx1).skip(1) =~= vs.skip(1).take(idx1));
        }
    } else {
        lemma_nth_at_layer(vs.skip(1), layer, n);
        let idx1 = nth_at_layer(vs.skip(1), layer, n);
        assert(vs.take(1 + idx1)[0] == vs[0]);
        assert(vs.take(1 + idx1).skip(1) =~= vs.skip(1).take(idx1));
    }
}

/// Counting over a longer prefix never counts less.
pub proof fn lemma_count_take_monotonic<B>(vs: Seq<SampleVariant<B>>, layer: u8, a: int, b: int)
    requires
        0 <= a <= b <= vs.len(),
    ensures
        count_at_layer(vs.take(a), layer) <= count_at_layer(vs.take(b), layer),
    decreases b - a,
{
    if a < b {
        lemma_count_take_monotonic(vs, layer, a + 1, b);
        lemma_count_unfold_take(vs, layer, a);
    }
}

/// One step of the prefix count: extending the prefix by `vs[k]` adds one
/// exactly when that variant is at the layer.
pub proof fn lemma_count_unfold_take<B>(vs: Seq<SampleVariant<B>>, layer: u8, k: int)
    requires
        0 <= k < vs.len(),
    ensures
        count_at_layer(vs.take(k + 1), layer) == count_at_layer(vs.take(k), layer) + (
        if vs[k].velocity_layer == layer {
            1int
        } else {
            0int
        }),
    decreases k,
{
    if k == 0 {
        assert(vs.take(1).skip(1) =~= Seq::<SampleVariant<B>>::empty());
        assert(vs.take(0) =~= Seq::<SampleVariant<B>>::empty());
        assert(vs.take(1)[0] == vs[0]);
    } else {
        lemma_count_unfold_take(vs.skip(1), layer, k - 1);
        assert(vs.take(k + 1)[0] == vs[0]);
        assert(vs.take(k)[0] == vs[0]);
        assert(vs.take(k + 1).skip(1) =~= vs.skip(1).take(k));
        assert(vs.take(k).skip(1) =~= vs.skip(1).take(k - 1));
    }
}

impl<B> NoteGroup<B> {
    /// A valid group: at least one layer and round-robin slot, every variant
    /// within the advertised bounds (and none at layer or index zero), and
    /// the variants sorted by (layer, round-robin).
    pub open spec fn wf(self) -> bool {
        &&& self.max_velocity_layer >= 1
        &&& self.max_round_robin >= 1
        &&& forall|i: int|
            0 <= i < self.variants@.len() ==> 1 <= (#[trigger] self.variants@[i]).velocity_layer
                <= self.max_velocity_layer
        &&& forall|i: int|
            0 <= i < self.variants@.len() ==> 1 <= (#[trigger] self.variants@[i]).round_robin
                <= self.max_round_robin
        &&& sorted_variants(self.variants@)
    }

    /// The variant a selection with the given round-robin counter picks: the
    /// `counter mod n`-th of the `n` variants at the computed layer, or
    /// nothing when that layer has no variants.
    pub open spec fn spec_select(self, velocity: u8, counter: nat) -> Option<int> {
        let layer = spec_layer(velocity, self.max_velocity_layer) as u8;
        let n = count_at_layer(self.variants@, layer);
        if n == 0 {
            None
        } else {
            Some(nth_at_layer(self.variants@, layer, counter % n))
        }
    }

    /// A group over the given variants with a fresh round-robin cursor.
    pub fn new(
        variants: Vec<SampleVariant<B>>,
        max_velocity_layer: u8,
        max_round_robin: u8,
    ) -> (g: NoteGroup<B>)
        ensures
            g.variants == variants,
            g.max_velocity_layer == max_velocity_layer,
            g.max_round_robin == max_round_robin,
    {
        NoteGroup { variants, max_velocity_layer, max_round_robin, rr_counter: AtomicUsize::new(0) }
    }

    /// The deterministic core of selection: which variant a given round-robin
    /// counter value picks at the given velocity.
    pub fn select_with_counter(&self, velocity: u8, counter: usize) -> (r: Option<
        &SampleVariant<B>,
    >)
        requires
            self.wf(),
        ensures
            ({
                let sel = self.spec_select(velocity, counter as nat);
                match r {
                    None => sel is None,
                    Some(v) => sel matches Some(idx) && 0 <= idx < self.variants@.len() && *v
                        == self.variants@[idx],
                }
            }),
    {
        let layer = velocity_layer(velocity, self.max_velocity_layer);
        let ghost vs = self.variants@;
        proof {
            assert(vs.skip(0) =~= vs);
        }
        let mut count: usize = 0;
        let mut i: usize = 0;
        while i < self.variants.len()
            invariant
                i <= vs.len(),
                vs == self.variants@,
                count <= i,
                count_at_layer(vs, layer) == count + count_at_layer(vs.skip(i as int), layer),
            decreases vs.len() - i,
        {
            proof {
                assert(vs.skip(i as int)[0] == vs[i as int]);
                assert(vs.skip(i as int).skip(1) =~= vs.skip(i + 1));
            }
            if self.variants[i].velocity_layer == layer {
                count = count + 1;
            }
            i = i + 1;
        }
        proof {
            assert(vs.skip(vs.len() as int) =~= Seq::<SampleVariant<B>>::empty());
        }
        if count == 0 {
            return None;
        }
        let rr_index = counter % count;
        let ghost target = nth_at_layer(vs, layer, rr_index as nat);
        proof {
            assert(vs.skip(0) =~= vs);
        }
        let mut seen: usize = 0;
        let mut j: usize = 0;
        loop
            invariant
                self.wf(),
                vs == self.variants@,
                vs.len() <= usize::MAX,
                j <= vs.len(),
                seen <= rr_index,
                rr_index < count,
                count == count_at_layer(vs, layer),
                layer == spec_layer(velocity, self.max_velocity_layer) as u8,
                rr_index == counter as nat % (count as nat),
                target == nth_at_layer(vs, layer, rr_index as nat),
                (rr_index - seen) < count_at_layer(vs.skip(j as int), layer),
                target == j + nth_at_layer(vs.skip(j as int), layer, (rr_index - seen) as nat),
            decreases vs.len() - j,
        {
            proof {
                assert(vs.skip(j as int).len() > 0);
                assert(j < vs.len());
                assert(vs.skip(j as int)[0] == vs[j as int]);
                assert(vs.skip(j as int).skip(1) =~= vs.skip(j + 1));
            }
            if self.variants[j].velocity_layer == layer {
                if seen == rr_index {
                    proof {
                        assert(nth_at_layer(vs.skip(j as int), layer, 0) == 0);
                        assert(target == j);
                    }
                    return Some(&self.variants[j]);
                }
                seen = seen + 1;
            }
            j = j + 1;
        }
    }

    /// Select a variant for the given velocity, advancing the shared
    /// round-robin cursor. The cursor is a shared atomic counter, so the
    /// value observed here depends on every other selection racing with this
    /// one; whatever it is, the variant returned is the one that counter
    /// value picks, and the selection fails exactly when the computed layer
    /// has no variants.
    pub fn select(&self, velocity: u8) -> (r: Option<&SampleVariant<B>>)
        requires
            self.wf(),
        ensures
            (r is None) == (count_at_layer(
                self.variants@,
                spec_layer(velocity, self.max_velocity_layer) as u8,
            ) == 0),
            r matches Some(v) ==> exists|c: nat|
                (#[trigger] self.spec_select(velocity, c)) matches Some(idx) && 0 <= idx
                    < self.variants@.len() && *v == self.variants@[idx],
    {
        let counter = self.rr_counter.fetch_add(1, Ordering::Relaxed);
        let r = self.select_with_counter(velocity, counter);
        proof {
            if r is Some {
                assert(self.spec_select(velocity, counter as nat) matches Some(idx) && 0 <= idx
                    < self.variants@.len() && *r.unwrap() == self.variants@[idx]);
            }
        }
        r
    }
}

/// Round-robin cycling at a fixed layer: with `n` variants at the layer of
/// the given velocity, consecutive counter values pick each variant exactly
/// once, in ascending round-robin order, before wrapping: counters `i < j <
/// n` pick distinct variants with strictly increasing round-robin indices
/// (provided no two variants share a layer and index), and counter `n` picks
/// the same variant as counter `0`.
pub proof fn lemma_round_robin_cycle<B>(g: NoteGroup<B>, velocity: u8, i: nat, j: nat)
    requires
        g.wf(),
        forall|a: int, b: int|
            0 <= a < b < g.variants@.len() ==> variant_key(#[trigger] g.variants@[a])
                != variant_key(#[trigger] g.variants@[b]),
        i < j < count_at_layer(g.variants@, spec_layer(velocity, g.max_velocity_layer) as u8),
    ensures
        ({
            let layer = spec_layer(velocity, g.max_velocity_layer) as u8;
            let n = count_at_layer(g.variants@, layer);
            &&& g.spec_select(velocity, i) matches Some(a)
            &&& g.spec_select(velocity, j) matches Some(b)
            &&& {
                let a = g.spec_select(velocity, i)->Some_0;
                let b = g.spec_select(velocity, j)->Some_0;
                &&& a != b
                &&& a < b
                &&& g.variants@[a].velocity_layer == layer
                &&& g.variants@[b].velocity_layer == layer
                &&& g.variants@[a].round_robin < g.variants@[b].round_robin
            }
            &&& g.spec_select(velocity, n) == g.spec_select(velocity, 0)
        }),
{
    let layer = spec_layer(velocity, g.max_velocity_layer) as u8;
    let vs = g.variants@;
    let n = count_at_layer(vs, layer);
    vstd::arithmetic::div_mod::lemma_small_mod(i, n);
    vstd::arithmetic::div_mod::lemma_small_mod(j, n);
    vstd::arithmetic::div_mod::lemma_mod_self_0(n as int);
    vstd::arithmetic::div_mod::lemma_small_mod(0, n);
    lemma_nth_at_layer(vs, layer, i);
    lemma_nth_at_layer(vs, layer, j);
    let a = nth_at_layer(vs, layer, i);
    let b = nth_at_layer(vs, layer, j);
    if a >= b {
        lemma_count_take_monotonic(vs, layer, b, a);
        assert(false);
    }
    assert(variant_key(vs[a]) <= variant_key(vs[b]));
    assert(variant_key(vs[a]) != variant_key(vs[b]));
    assert(vs[a].velocity_layer == vs[b].velocity_layer);
    assert(vs[a].round_robin < vs[b].round_robin) by {
        assert(variant_key(vs[a]) == vs[a].velocity_layer * 256 + vs[a].round_robin);
        assert(variant_key(vs[b]) == vs[b].velocity_layer * 256 + vs[b].round_robin);
    };
    assert((n as int) % (n as int) == 0);
}

/// Whether `s` ends with `suffix`.
pub open spec fn spec_ends_with(s: Seq<char>, suffix: Seq<char>) -> bool {
    s.len() >= suffix.len() && s.skip(s.len() - suffix.len()) == suffix
}

/// Stripping a supported audio extension (`.wav`, `.mp3`, `.flac`, `.ogg`,
/// `.aac`, `.m4a`, lower case) from a filename, leaving the stem.
pub open spec fn spec_strip_ext(s: Seq<char>) -> Option<Seq<char>> {
    if spec_ends_with(s, ".wav"@) {
        Some(s.take(s.len() - 4))
    } else if spec_ends_with(s, ".mp3"@) {
        Some(s.take(s.len() - 4))
    } else if spec_ends_with(s, ".flac"@) {
        Some(s.take(s.len() - 5))
    } else if spec_ends_with(s, ".ogg"@) {
        Some(s.take(s.len() - 4))
    } else if spec_ends_with(s, ".aac"@) {
        Some(s.take(s.len() - 4))
    } else if spec_ends_with(s, ".m4a"@) {
        Some(s.take(s.len() - 4))
    } else {
        None
    }
}

/// Scanning the parts of a stem after the note number: a part starting with
/// `v` sets the velocity layer, a part starting with `rr` sets the
/// round-robin index, anything else is ignored; a `v` or `rr` part whose
/// remainder is not a valid number fails the whole parse.
pub open spec fn spec_scan_parts(
    parts: Seq<Seq<char>>,
    i: int,
    velocity_layer: Option<u8>,
    round_robin: Option<u8>,
    note: u8,
) -> Option<SampleFileInfo>
    decreases parts.len() - i,
{
    if i < 0 || i >= parts.len() {
        Some(SampleFileInfo { note, velocity_layer, round_robin })
    } else {
        let p = parts[i];
        if p.len() >= 1 && p[0] == 'v' {
            match spec_parse_u8(p.skip(1)) {
                None => None,
                Some(v) => spec_scan_parts(parts, i + 1, Some(v), round_robin, note),
            }
        } else if p.len() >= 2 && p[0] == 'r' && p[1] == 'r' {
            match spec_parse_u8(p.skip(2)) {
                None => None,
                Some(v) => spec_scan_parts(parts, i + 1, velocity_layer, Some(v), note),
            }
        } else {
            spec_scan_parts(parts, i + 1, velocity_layer, round_robin, note)
        }
    }
}

/// One unfolding step of `spec_scan_parts` at a valid index.
proof fn lemma_scan_step(
    parts: Seq<Seq<char>>,
    i: int,
    velocity_layer: Option<u8>,
    round_robin: Option<u8>,
    note: u8,
)
    requires
        0 <= i < parts.len(),
    ensures
        spec_scan_parts(parts, i, velocity_layer, round_robin, note) == ({
            let p = parts[i];
            if p.len() >= 1 && p[0] == 'v' {
                match spec_parse_u8(p.skip(1)) {
                    None => None,
                    Some(v) => spec_scan_parts(parts, i + 1, Some(v), round_robin, note),
                }
            } else if p.len() >= 2 && p[0] == 'r' && p[1] == 'r' {
                match spec_parse_u8(p.skip(2)) {
                    None => None,
                    Some(v) => spec_scan_parts(parts, i + 1, velocity_layer, Some(v), note),
                }
            } else {
                spec_scan_parts(parts, i + 1, velocity_layer, round_robin, note)
            }
        }),
{
}

/// What `parse_sample_filename` accepts: a supported extension, an
/// underscore-separated stem whose first part is the note number, and
/// optional `v<n>` and `rr<n>` parts.
pub open spec fn spec_parse_sample_filename(s: Seq<char>) -> Option<SampleFileInfo> {
    match spec_strip_ext(s) {
        None => None,
        Some(stem) => {
            let parts = spec_split(stem, '_');
            match spec_parse_u8(parts[0]) {
                None => None,
                Some(note) => spec_scan_parts(parts, 1, None, None, note),
            }
        },
    }
}

/// The characters of `chars` from position `from` on.
fn char_suffix(chars: &Vec<char>, from: usize) -> (r: Vec<char>)
    requires
        from <= chars@.len(),
    ensures
        r@ == chars@.skip(from as int),
{
    let mut r: Vec<char> = Vec::new();
    let mut i: usize = from;
    proof {
        assert(chars@.subrange(from as int, from as int) =~= Seq::<char>::empty());
    }
    while i < chars.len()
        invariant
            from <= i <= chars@.len(),
            r@ == chars@.subrange(from as int, i as int),
        decreases chars@.len() - i,
    {
        r.push(chars[i]);
        proof {
            assert(chars@.subrange(from as int, i + 1) =~= chars@.subrange(
                from as int,
                i as int,
            ).push(chars@[i as int]));
        }
        i = i + 1;
    }
    proof {
        assert(chars@.subrange(from as int, chars@.len() as int) =~= chars@.skip(from as int));
    }
    r
}

/// Parse an audio sample filename into its note number and optional
/// velocity-layer / round-robin metadata: `36.wav` is note 36, and
/// `38_v2_rr3.flac` is note 38, layer 2, third round-robin.
pub fn parse_sample_filename(filename: &str) -> (r: Option<SampleFileInfo>)
    ensures
        r == spec_parse_sample_filename(filename@),
{
    let mut chars = str_to_chars(filename);
    proof {
        reveal_strlit(".wav");
        reveal_strlit(".mp3");
        reveal_strlit(".flac");
        reveal_strlit(".ogg");
        reveal_strlit(".aac");
        reveal_strlit(".m4a");
    }
    let ext_len: usize;
    if chars_ends_with(&chars, ".wav") {
        ext_len = 4;
    } else if chars_ends_with(&chars, ".mp3") {
        ext_len = 4;
    } else if chars_ends_with(&chars, ".flac") {
        ext_len = 5;
    } else if chars_ends_with(&chars, ".ogg") {
        ext_len = 4;
    } else if chars_ends_with(&chars, ".aac") {
        ext_len = 4;
    } else if chars_ends_with(&chars, ".m4a") {
        ext_len = 4;
    } else {
        return None;
    }
    let ghost full = chars@;
    let stem_len = chars.len() - ext_len;
    chars.truncate(stem_len);
    proof {
        assert(chars@ =~= full.take(full.len() - ext_len));
        assert(spec_strip_ext(full) == Some(chars@));
    }
    let parts = split_chars(&chars, '_');
    proof {
        lemma_split_nonempty(chars@, '_');
    }
    let ghost pseq = Seq::new(parts@.len(), |k: int| parts@[k]@);
    proof {
        assert(forall|k: int|
            0 <= k < parts@.len() ==> (#[trigger] parts@[k])@ == spec_split(chars@, '_')[k]);
        assert(pseq =~= spec_split(chars@, '_'));
    }
    let note: u8;
    match parse_u8_chars(&parts[0]) {
        Some(n) => {
            note = n;
        },
        None => {
            return None;
        },
    }
    let mut velocity_layer: Option<u8> = None;
    let mut round_robin: Option<u8> = None;
    proof {
        assert(spec_parse_sample_filename(filename@) == spec_scan_parts(
            pseq,
            1,
            None,
            None,
            note,
        ));
    }
    let mut i: usize = 1;
    while i < parts.len()
        invariant
            1 <= i <= parts@.len(),
            pseq.len() == parts@.len(),
            forall|k: int| 0 <= k < parts@.len() ==> (#[trigger] parts@[k])@ == pseq[k],
            spec_parse_sample_filename(filename@) == spec_scan_parts(
                pseq,
                i as int,
                velocity_layer,
                round_robin,
                note,
            ),
        decreases parts@.len() - i,
    {
        let part = &parts[i];
        proof {
            assert(part@ == pseq[i as int]);
            lemma_scan_step(pseq, i as int, velocity_layer, round_robin, note);
        }
        if part.len() >= 1 && part[0] == 'v' {
            let rest = char_suffix(part, 1);
            proof {
                assert(rest@ == pseq[i as int].skip(1));
            }
            match parse_u8_chars(&rest) {
                Some(v) => {
                    velocity_layer = Some(v);
                },
                None => {
                    proof {
                        assert(pseq[i as int].len() >= 1);
                        assert(pseq[i as int][0] == 'v');
                        assert(spec_parse_u8(pseq[i as int].skip(1)) is None);
                        assert(spec_scan_parts(pseq, i as int, velocity_layer, round_robin, note)
                            is None);
                    }
                    return None;
                },
            }
        } else if part.len() >= 2 && part[0] == 'r' && part[1] == 'r' {
            let rest = char_suffix(part, 2);
            proof {
                assert(rest@ == pseq[i as int].skip(2));
            }
            match parse_u8_chars(&rest) {
                Some(v) => {
                    round_robin = Some(v);
                },
                None => {
                    proof {
                        assert(pseq[i as int].len() >= 2);
                        assert(pseq[i as int][0] == 'r' && pseq[i as int][1] == 'r');
                        assert(!(pseq[i as int][0] == 'v'));
                        assert(spec_parse_u8(pseq[i as int].skip(2)) is None);
                        assert(spec_scan_parts(pseq, i as int, velocity_layer, round_robin, note)
                            is None);
                    }
                    return None;
                },
            }
        }
        i = i + 1;
    }
    proof {
        assert(spec_scan_parts(pseq, i as int, velocity_layer, round_robin, note) == Some(
            SampleFileInfo { note, velocity_layer, round_robin },
        ));
    }
    Some(SampleFileInfo { note, velocity_layer, round_robin })
}

/// The kit's note table: for each MIDI note, the group of variants loaded
/// for it, if any.
pub struct NoteMap<B> {
    pub groups: Vec<Option<NoteGroup<B>>>,
}

impl<B> NoteMap<B> {
    /// One slot per possible note byte, each held group valid.
    pub open spec fn wf(self) -> bool {
        &&& self.groups@.len() == 256
        &&& forall|i: int|
            0 <= i < 256 ==> ((#[trigger] self.groups@[i]) matches Some(g) ==> g.wf())
    }

    /// The group of a note.
    pub open spec fn spec_group(self, note: u8) -> Option<NoteGroup<B>> {
        self.groups@[note as int]
    }

    /// An empty note table.
    pub fn new() -> (m: NoteMap<B>)
        ensures
            m.wf(),
            forall|n: u8| m.spec_group(n) is None,
    {
        let mut groups: Vec<Option<NoteGroup<B>>> = Vec::new();
        let mut i: usize = 0;
        while i < 256
            invariant
                i <= 256,
                groups@.len() == i,
                forall|j: int| 0 <= j < i ==> (#[trigger] groups@[j]) is None,
            decreases 256 - i,
        {
            groups.push(None);
            i = i + 1;
        }
        NoteMap { groups }
    }

    /// Install (or replace) the group of a note.
    pub fn insert_group(&mut self, note: u8, group: NoteGroup<B>)
        requires
            old(self).wf(),
            group.wf(),
        ensures
            final(self).wf(),
            final(self).spec_group(note) matches Some(g) && g == group,
            forall|n: u8| n != note ==> final(self).spec_group(n) == old(self).spec_group(n),
    {
        let slot = &mut self.groups[note as usize];
        *slot = Some(group);
    }

    /// The group of a note, if one is loaded.
    pub fn group(&self, note: u8) -> (r: Option<&NoteGroup<B>>)
        requires
            self.wf(),
        ensures
            match r {
                None => self.spec_group(note) is None,
                Some(g) => self.spec_group(note) matches Some(sg) && *g == sg,
            },
    {
        self.groups[note as usize].as_ref()
    }
}

/// The sorted list of notes that have a group in the table.
pub fn note_keys<B>(map: &NoteMap<B>) -> (keys: Vec<u8>)
    requires
        map.wf(),
    ensures
        forall|i: int, j: int| 0 <= i < j < keys@.len() ==> keys@[i] < keys@[j],
        forall|i: int| 0 <= i < keys@.len() ==> map.spec_group(#[trigger] keys@[i]) is Some,
        forall|n: u8| map.spec_group(n) is Some ==> keys@.contains(n),
{
    let mut keys: Vec<u8> = Vec::new();
    let mut i: usize = 0;
    while i < 256
        invariant
            i <= 256,
            map.wf(),
            forall|a: int, b: int| 0 <= a < b < keys@.len() ==> keys@[a] < keys@[b],
            forall|a: int| 0 <= a < keys@.len() ==> (#[trigger] keys@[a]) < i,
            forall|a: int| 0 <= a < keys@.len() ==> map.spec_group(#[trigger] keys@[a]) is Some,
            forall|n: u8| n < i && map.spec_group(n) is Some ==> keys@.contains(n),
        decreases 256 - i,
    {
        let ghost keys0 = keys@;
        if map.groups[i].is_some() {
            keys.push(i as u8);
            proof {
                assert(keys@.last() == i as u8);
                assert(keys@.contains(i as u8));
                assert forall|n: u8|
                    n < i + 1 && map.spec_group(n) is Some implies keys@.contains(n) by {
                    if (n as int) < i as int {
                        assert(keys0.contains(n));
                        let k = choose|k: int| 0 <= k < keys0.len() && keys0[k] == n;
                        assert(keys@[k] == n);
                    } else {
                        assert(n == i as u8);
                    }
                };
            }
        } else {
            proof {
                assert(map.spec_group(i as u8) is None);
                assert forall|n: u8|
                    n < i + 1 && map.spec_group(n) is Some implies keys@.contains(n) by {
                    assert((n as int) < i as int);
                };
            }
        }
        i = i + 1;
    }
        keys
}

/// A complete, immutable kit: its name, its note table, and the sample rate
/// and channel count that every variant in it shares.
pub struct Kit<B> {
    pub name: String,
    pub notes: NoteMap<B>,
    pub sample_rate: u32,
    pub channels: u16,
}

impl<B> Kit<B> {
    pub open spec fn wf(self) -> bool {
        self.notes.wf()
    }
}

/// Why a kit could not be built.
#[derive(Debug, Clone, PartialEq)]
pub enum KitError {
    /// No sample was added at all.
    NoSamples,
    /// A sample declared velocity layer 0 or round-robin index 0; both are
    /// 1-based.
    InvalidVariantIndex,
    /// A sample's rate differs from the rate the kit started with.
    SampleRateMismatch { expected: u32, got: u32 },
    /// A sample's channel count differs from the kit's.
    ChannelCountMismatch { expected: u16, got: u16 },
}

/// The largest velocity layer appearing in a variant list (0 when empty).
pub open spec fn max_layer_of<B>(vs: Seq<SampleVariant<B>>) -> u8
    decreases vs.len(),
{
    if vs.len() == 0 {
        0
    } else {
        let m = max_layer_of(vs.drop_last());
        if vs.last().velocity_layer > m {
            vs.last().velocity_layer
        } else {
            m
        }
    }
}

/// The largest round-robin index appearing in a variant list (0 when empty).
pub open spec fn max_rr_of<B>(vs: Seq<SampleVariant<B>>) -> u8
    decreases vs.len(),
{
    if vs.len() == 0 {
        0
    } else {
        let m = max_rr_of(vs.drop_last());
        if vs.last().round_robin > m {
            vs.last().round_robin
        } else {
            m
        }
    }
}

/// Every variant's layer and round-robin index are bounded by the maxima.
proof fn lemma_max_bounds<B>(vs: Seq<SampleVariant<B>>)
    ensures
        forall|i: int|
            0 <= i < vs.len() ==> (#[trigger] vs[i]).velocity_layer <= max_layer_of(vs),
        forall|i: int| 0 <= i < vs.len() ==> (#[trigger] vs[i]).round_robin <= max_rr_of(vs),
    decreases vs.len(),
{
    if vs.len() > 0 {
        lemma_max_bounds(vs.drop_last());
        assert forall|i: int|
            0 <= i < vs.len() implies (#[trigger] vs[i]).velocity_layer <= max_layer_of(vs)
            && vs[i].round_robin <= max_rr_of(vs) by {
            if i < vs.len() - 1 {
                assert(vs.drop_last()[i] == vs[i]);
                assert(vs.drop_last()[i].velocity_layer <= max_layer_of(vs.drop_last()));
                assert(vs.drop_last()[i].round_robin <= max_rr_of(vs.drop_last()));
            }
        }
    }
}

/// A layer or round-robin option with its default of 1.
pub open spec fn spec_level_or_one(v: Option<u8>) -> u8 {
    match v {
        Some(x) => x,
        None => 1u8,
    }
}

/// The error (if any) that adding a sample with these parameters to this
/// builder reports: a zero layer or round-robin index, then a sample-rate
/// mismatch, then a channel-count mismatch.
pub open spec fn spec_add_outcome<B>(
    b: KitBuilder<B>,
    velocity_layer: Option<u8>,
    round_robin: Option<u8>,
    sample_rate: u32,
    channels: u16,
) -> Option<KitError> {
    if velocity_layer == Some(0u8) || round_robin == Some(0u8) {
        Some(KitError::InvalidVariantIndex)
    } else {
        match b.sample_rate {
            Some(expected) if expected != sample_rate => Some(
                KitError::SampleRateMismatch { expected, got: sample_rate },
            ),
            _ => match b.channels {
                Some(expected) if expected != channels => Some(
                    KitError::ChannelCountMismatch { expected, got: channels },
                ),
                _ => None,
            },
        }
    }
}

/// Builds a kit from decoded samples, one at a time, enforcing that every
/// sample shares the first sample's rate and channel count.
pub struct KitBuilder<B> {
    pub name: String,
    pub pending: Vec<Vec<SampleVariant<B>>>,
    pub sample_rate: Option<u32>,
    pub channels: Option<u16>,
}

impl<B> KitBuilder<B> {
    /// The variants collected so far for a note.
    pub open spec fn pend(self, note: int) -> Seq<SampleVariant<B>> {
        self.pending@[note]@
    }

    pub open spec fn wf(self) -> bool {
        &&& self.pending@.len() == 256
        &&& forall|n: int| 0 <= n < 256 ==> sorted_variants(#[trigger] self.pend(n))
        &&& forall|n: int, i: int|
            0 <= n < 256 && 0 <= i < self.pend(n).len() ==> (#[trigger] self.pend(
                n,
            )[i]).velocity_layer >= 1 && self.pend(n)[i].round_robin >= 1
        &&& forall|n: int|
            0 <= n < 256 && (#[trigger] self.pend(n)).len() > 0 ==> self.sample_rate is Some
                && self.channels is Some
    }

    /// A builder with no samples yet.
    pub fn new(name: String) -> (b: KitBuilder<B>)
        ensures
            b.wf(),
            b.name == name,
            b.sample_rate is None,
            b.channels is None,
            forall|n: int| 0 <= n < 256 ==> (#[trigger] b.pend(n)).len() == 0,
    {
        let mut pending: Vec<Vec<SampleVariant<B>>> = Vec::new();
        let mut i: usize = 0;
        while i < 256
            invariant
                i <= 256,
                pending@.len() == i,
                forall|j: int| 0 <= j < i ==> (#[trigger] pending@[j])@.len() == 0,
            decreases 256 - i,
        {
            pending.push(Vec::new());
            i = i + 1;
        }
        KitBuilder { name, pending, sample_rate: None, channels: None }
    }

    /// Add one decoded sample. The layer and round-robin index default to 1;
    /// the first sample fixes the kit's rate and channel count, which every
    /// later sample must repeat. On an error nothing changes.
    pub fn add_sample(
        &mut self,
        note: u8,
        velocity_layer: Option<u8>,
        round_robin: Option<u8>,
        samples: B,
        sample_len: usize,
        sample_rate: u32,
        channels: u16,
    ) -> (r: Result<(), KitError>)
        requires
            old(self).wf(),
        ensures
            final(self).wf(),
            final(self).name == old(self).name,
            match r {
                Ok(()) => {
                    &&& spec_add_outcome(
                        *old(self),
                        velocity_layer,
                        round_robin,
                        sample_rate,
                        channels,
                    ) is None
                    &&& final(self).sample_rate == Some(sample_rate)
                    &&& final(self).channels == Some(channels)
                    &&& forall|n: int|
                        0 <= n < 256 && n != note ==> final(self).pend(n) == old(self).pend(n)
                    &&& exists|p: int|
                        0 <= p <= old(self).pend(note as int).len() && final(self).pend(
                            note as int,
                        ) == old(self).pend(note as int).insert(
                            p,
                            SampleVariant {
                                samples,
                                sample_len,
                                velocity_layer: spec_level_or_one(velocity_layer),
                                round_robin: spec_level_or_one(round_robin),
                            },
                        )
                },
                Err(e) => {
                    &&& Some(e) == spec_add_outcome(
                        *old(self),
                        velocity_layer,
                        round_robin,
                        sample_rate,
                        channels,
                    )
                    &&& *final(self) == *old(self)
                },
            },
    {
        let layer: u8 = match velocity_layer {
            Some(v) => v,
            None => 1,
        };
        let rr: u8 = match round_robin {
            Some(v) => v,
            None => 1,
        };
        if layer == 0 || rr == 0 {
            return Err(KitError::InvalidVariantIndex);
        }
        match self.sample_rate {
            Some(expected) => {
                if expected != sample_rate {
                    return Err(KitError::SampleRateMismatch { expected, got: sample_rate });
                }
            },
            None => {},
        }
        match self.channels {
            Some(expected) => {
                if expected != channels {
                    return Err(KitError::ChannelCountMismatch { expected, got: channels });
                }
            },
            None => {},
        }
        self.sample_rate = Some(sample_rate);
        self.channels = Some(channels);
        let variant = SampleVariant { samples, sample_len, velocity_layer: layer, round_robin: rr };
        let key: u16 = (layer as u16) * 256 + (rr as u16);
        let list = &mut self.pending[note as usize];
        let ghost list0 = list@;
        let list_len = list.len();
        proof {
            assert(list0 == old(self).pend(note as int));
            assert(sorted_variants(old(self).pend(note as int)));
            assert(list0.len() == list_len);
        }
        let mut p: usize = 0;
        loop
            invariant
                p <= list@.len(),
                list@ == list0,
                list0.len() <= usize::MAX,
                sorted_variants(list0),
                key == variant_key(variant),
                forall|q: int| 0 <= q < p ==> variant_key(#[trigger] list0[q]) <= key,
            ensures
                p <= list0.len(),
                list@ == list0,
                p == list0.len() || variant_key(list0[p as int]) > key,
                forall|q: int| 0 <= q < p ==> variant_key(#[trigger] list0[q]) <= key,
            decreases list@.len() - p,
        {
            if p == list.len() {
                break ;
            }
            let e = &list[p];
            let ekey: u16 = (e.velocity_layer as u16) * 256 + (e.round_robin as u16);
            proof {
                assert(ekey == variant_key(list0[p as int]));
            }
            if ekey > key {
                break ;
            }
            p = p + 1;
        }
        proof {
            assert(forall|q: int|
                p < q < list0.len() ==> variant_key(#[trigger] list0[q]) >= variant_key(
                    list0[p as int],
                ));
        }
        list.insert(p, variant);
        proof {
            let inserted = list0.insert(p as int, variant);
            assert(list@ =~= inserted);
            assert(sorted_variants(list@)) by {
                assert(forall|q: int| 0 <= q < p ==> list@[q] == #[trigger] list0[q]);
                assert(forall|q: int|
                    p < q < list@.len() ==> list@[q] == #[trigger] list0[q - 1]);
                assert(list@[p as int] == variant);
            };
        }
        proof {
            assert(self.pending@ =~= old(self).pending@.update(
                note as int,
                self.pending@[note as int],
            ));
            assert(self.pend(note as int) == list0.insert(p as int, variant));
            assert(forall|n: int|
                0 <= n < 256 && n != note as int ==> #[trigger] self.pend(n) == old(self).pend(
                    n,
                ));
            assert(forall|n: int, i: int|
                0 <= n < 256 && 0 <= i < self.pend(n).len() ==> (#[trigger] self.pend(
                    n,
                )[i]).velocity_layer >= 1 && self.pend(n)[i].round_robin >= 1) by {
                assert(forall|i: int|
                    0 <= i < list0.len() ==> (#[trigger] list0[i]).velocity_layer >= 1
                        && list0[i].round_robin >= 1);
                assert(forall|i: int|
                    0 <= i < self.pend(note as int).len() && i != p ==> self.pend(note as int)[i]
                        == list0[if i < p {
                        i
                    } else {
                        i - 1
                    }]);
            };
        }
        Ok(())
    }

    /// Finish the kit: each note with samples gets a group over its sorted
    /// variants, with the maxima the variants reach and a fresh round-robin
    /// cursor. Fails when nothing was added.
    pub fn finish(self) -> (r: Result<Kit<B>, KitError>)
        requires
            self.wf(),
        ensures
            match r {
                Err(e) => e == KitError::NoSamples && (forall|n: int|
                    0 <= n < 256 ==> (#[trigger] self.pend(n)).len() == 0),
                Ok(kit) => {
                    &&& kit.name == self.name
                    &&& self.sample_rate == Some(kit.sample_rate)
                    &&& self.channels == Some(kit.channels)
                    &&& kit.wf()
                    &&& forall|n: u8|
                        ((#[trigger] kit.notes.spec_group(n)) is Some) == (self.pend(
                            n as int,
                        ).len() > 0)
                    &&& forall|n: u8|
                        (#[trigger] kit.notes.spec_group(n)) matches Some(g) ==> g.variants@
                            == self.pend(n as int) && g.max_velocity_layer == max_layer_of(
                            self.pend(n as int),
                        ) && g.max_round_robin == max_rr_of(self.pend(n as int))
                },
            },
    {
        let ghost self0 = self;
        let KitBuilder { name, mut pending, sample_rate, channels } = self;
        let mut notes: NoteMap<B> = NoteMap::new();
        let mut any = false;
        let mut note: usize = 0;
        while note < 256
            invariant
                note <= 256,
                pending@.len() == 256 - note,
                self0.pending@.len() == 256,
                self0.wf(),
                forall|k: int|
                    0 <= k < pending@.len() ==> (#[trigger] pending@[k])@ == self0.pend(note + k),
                notes.wf(),
                forall|n: u8|
                    n < note ==> ((#[trigger] notes.spec_group(n)) is Some) == (self0.pend(
                        n as int,
                    ).len() > 0),
                forall|n: u8| n >= note ==> (#[trigger] notes.spec_group(n)) is None,
                forall|n: u8|
                    n < note ==> ((#[trigger] notes.spec_group(n)) matches Some(g) ==> g.variants@
                        == self0.pend(n as int) && g.max_velocity_layer == max_layer_of(
                        self0.pend(n as int),
                    ) && g.max_round_robin == max_rr_of(self0.pend(n as int))),
                any == exists|n: int| 0 <= n < note && (#[trigger] self0.pend(n)).len() > 0,
            decreases 256 - note,
        {
            let list = pending.remove(0);
            proof {
                assert(list@ == self0.pend(note as int));
            }
            if list.len() > 0 {
                any = true;
                let max_velocity_layer = max_layer_in(&list);
                let max_round_robin = max_rr_in(&list);
                proof {
                    lemma_max_bounds(list@);
                    assert(list@[0].velocity_layer >= 1);
                    assert(list@[0].round_robin >= 1);
                }
                let group = NoteGroup::new(list, max_velocity_layer, max_round_robin);
                notes.insert_group(note as u8, group);
                proof {
                    assert(self0.pend(note as int).len() > 0);
                }
            }
            note = note + 1;
        }
        if !any {
            return Err(KitError::NoSamples);
        }
        let rate: u32;
        match sample_rate {
            Some(v) => {
                rate = v;
            },
            None => {
                proof {
                    let n = choose|n: int| 0 <= n < 256 && (#[trigger] self0.pend(n)).len() > 0;
                    assert(self0.sample_rate is Some);
                }
                return Err(KitError::NoSamples);
            },
        }
        let chans: u16;
        match channels {
            Some(v) => {
                chans = v;
            },
            None => {
                proof {
                    let n = choose|n: int| 0 <= n < 256 && (#[trigger] self0.pend(n)).len() > 0;
                    assert(self0.channels is Some);
                }
                return Err(KitError::NoSamples);
            },
        }
        Ok(Kit { name, notes, sample_rate: rate, channels: chans })
    }
}

/// The largest velocity layer in a non-empty variant list.
fn max_layer_in<B>(list: &Vec<SampleVariant<B>>) -> (m: u8)
    requires
        list@.len() > 0,
    ensures
        m == max_layer_of(list@),
{
    let mut m: u8 = 0;
    let mut i: usize = 0;
    proof {
        assert(list@.take(0) =~= Seq::<SampleVariant<B>>::empty());
    }
    while i < list.len()
        invariant
            i <= list@.len(),
            m == max_layer_of(list@.take(i as int)),
        decreases list@.len() - i,
    {
        proof {
            assert(list@.take(i + 1).drop_last() =~= list@.take(i as int));
            assert(list@.take(i + 1).last() == list@[i as int]);
        }
        if list[i].velocity_layer > m {
            m = list[i].velocity_layer;
        }
        i = i + 1;
    }
    proof {
        assert(list@.take(list@.len() as int) =~= list@);
    }
    m
}

/// The largest round-robin index in a non-empty variant list.
fn max_rr_in<B>(list: &Vec<SampleVariant<B>>) -> (m: u8)
    requires
        list@.len() > 0,
    ensures
        m == max_rr_of(list@),
{
    let mut m: u8 = 0;
    let mut i: usize = 0;
    proof {
        assert(list@.take(0) =~= Seq::<SampleVariant<B>>::empty());
    }
    while i < list.len()
        invariant
            i <= list@.len(),
            m == max_rr_of(list@.take(i as int)),
        decreases list@.len() - i,
    {
        proof {
            assert(list@.take(i + 1).drop_last() =~= list@.take(i as int));
            assert(list@.take(i + 1).last() == list@[i as int]);
        }
        if list[i].round_robin > m {
            m = list[i].round_robin;
        }
        i = i + 1;
    }
    proof {
        assert(list@.take(list@.len() as int) =~= list@);
    }
    m
}

/// A kit directory found on disk: its name, its location, and how many WAV
/// files it holds.
#[derive(Debug, Clone, PartialEq)]
pub struct DiscoveredKit {
    pub name: String,
    pub path: String,
    pub wav_count: usize,
}

} // verus!
