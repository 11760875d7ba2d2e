//! The timeline of a rendering: which element of which track sounds at which
//! sample. Sample values are not computed here; the plan says where each
//! of them belongs.

use vstd::prelude::*;
use crate::arrangement::{Arrangement, ArrangementView, TrackOverrides};
use crate::effects::EffectsChain;
use crate::engine::{enabled_in, volume_in, DynamicParameters, ParamsView, SynthEngine};
use crate::envelope::{calculate_envelope, envelope_of};
use crate::fixed::{clamp_i64, product_micros, Fixed, Ratio};
use crate::instrument::{beats_of, element_views, ElementView, InstrumentView, SequenceElement};
use crate::timing::{
    beat_micros,
    beat_samples,
    beats_in,
    ceil_samples,
    floor_samples,
    held,
    micros_at,
    samples_ceil,
    samples_floor,
    samples_of_beats,
    seconds_at,
};
use crate::track::{MelodyTrack, TrackView};

verus! {

/// The samples of one block of a track's rendering.
pub const CHUNK_SIZE: u64 = 1024;

/// The run of samples that one element of a track fills: from `start`,
/// counted from the start of the track, `length` samples.
#[derive(Clone, Copy, Debug, PartialEq, Eq, Structural)]
pub struct Segment {
    /// The position of the element in the sequence of the track.
    pub element: usize,
    pub start: u64,
    pub length: u64,
}

/// One track of a rendering.
pub struct TrackPlan {
    /// The position of the track in the arrangement.
    pub source: usize,
    /// The melody as it plays: with the overrides of its placement and the
    /// settings of the moment.
    pub track: MelodyTrack,
    /// The sample of the rendering at which the track starts.
    pub start: u64,
    /// The samples of the track that are rendered.
    pub total: u64,
    /// The notes and chords of the track, in order.
    pub segments: Vec<Segment>,
}

pub struct TrackPlanView {
    pub source: usize,
    pub track: TrackView,
    pub start: u64,
    pub total: u64,
    pub segments: Seq<Segment>,
}

/// A rendering: its length in samples, the tracks that sound, and over how
/// many samples it fades in and out.
pub struct RenderPlan {
    pub length: u64,
    pub tracks: Vec<TrackPlan>,
    pub fade_in_samples: u64,
    pub fade_out_samples: u64,
}

pub struct RenderPlanView {
    pub length: u64,
    pub tracks: Seq<TrackPlanView>,
    pub fade_in_samples: u64,
    pub fade_out_samples: u64,
}

/// Where a moment falls in a track: in which element, how many seconds into
/// it, and how many seconds the element lasts.
#[derive(Clone, Copy, Debug, PartialEq, Eq, Structural)]
pub struct Placement {
    pub element: usize,
    pub time_in_note: Fixed,
    pub duration: Fixed,
}

/// What one track adds to a moment of the output: the note or chord that
/// sounds, how far the moment is into the track and into the element, the
/// level of the envelope there, and the volume of the track.
#[derive(Clone, Copy, Debug, PartialEq, Eq, Structural)]
pub struct Voice {
    /// The position of the track in the arrangement.
    pub track: usize,
    /// The position of the element in the sequence of the track.
    pub element: usize,
    /// Seconds since the track started.
    pub track_time: Fixed,
    pub time_in_note: Fixed,
    /// The seconds that the element lasts.
    pub duration: Fixed,
    pub envelope: Fixed,
    pub volume: Fixed,
}

impl View for TrackPlan {
    type V = TrackPlanView;

    open spec fn view(&self) -> TrackPlanView {
        TrackPlanView {
            source: self.source,
            track: self.track@,
            start: self.start,
            total: self.total,
            segments: self.segments@,
        }
    }
}

/// The views of the tracks of a plan.
pub open spec fn plan_views(s: Seq<TrackPlan>) -> Seq<TrackPlanView> {
    s.map_values(|p: TrackPlan| p@)
}

impl View for RenderPlan {
    type V = RenderPlanView;

    open spec fn view(&self) -> RenderPlanView {
        RenderPlanView {
            length: self.length,
            tracks: plan_views(self.tracks@),
            fade_in_samples: self.fade_in_samples,
            fade_out_samples: self.fade_out_samples,
        }
    }
}

/// Whether an element makes a sound: a note or a chord does, a rest does not.
pub open spec fn sounds(e: ElementView) -> bool {
    !(e is Rest)
}

/// The sample, counted from the start of the track, at which the element `k`
/// begins: the samples of the elements before it, added up.
pub open spec fn onset(seq: Seq<ElementView>, k: int, tempo: Fixed, rate: u32) -> int
    decreases k,
{
    if k <= 0 {
        0
    } else {
        onset(seq, k - 1, tempo, rate) + beat_samples(beats_of(seq[k - 1]), tempo, rate)
    }
}

/// The run of samples of the element `k`, cut off at `total`.
pub open spec fn segment_of(seq: Seq<ElementView>, k: int, tempo: Fixed, rate: u32, total: u64) -> Segment {
    let start = onset(seq, k, tempo, rate);
    let length = beat_samples(beats_of(seq[k]), tempo, rate);
    Segment {
        element: k as usize,
        start: start as u64,
        length: (if start + length > total {
            total - start
        } else {
            length
        }) as u64,
    }
}

/// The runs of the first `n` elements: one for each note and chord that
/// begins before `total`, in order.
pub open spec fn segments_upto(seq: Seq<ElementView>, n: int, tempo: Fixed, rate: u32, total: u64) -> Seq<
    Segment,
>
    decreases n,
{
    if n <= 0 {
        Seq::empty()
    } else {
        let before = segments_upto(seq, n - 1, tempo, rate, total);
        if sounds(seq[n - 1]) && onset(seq, n - 1, tempo, rate) < total {
            before.push(segment_of(seq, n - 1, tempo, rate, total))
        } else {
            before
        }
    }
}

/// The runs of all elements of a track.
pub open spec fn segments_of(seq: Seq<ElementView>, tempo: Fixed, rate: u32, total: u64) -> Seq<
    Segment,
> {
    segments_upto(seq, seq.len() as int, tempo, rate, total)
}

/// The effects of `own`, each replaced by the one in `o` where `o` has one.
pub open spec fn overridden_effects(own: EffectsChain, o: TrackOverrides) -> EffectsChain {
    EffectsChain {
        reverb: if o.reverb.is_some() {
            o.reverb
        } else {
            own.reverb
        },
        delay: if o.delay.is_some() {
            o.delay
        } else {
            own.delay
        },
        distortion: if o.distortion.is_some() {
            o.distortion
        } else {
            own.distortion
        },
        filter: if o.filter.is_some() {
            o.filter
        } else {
            own.filter
        },
    }
}

/// The melody `t` as it plays under the overrides `o`: volume, tempo and
/// effects replaced where `o` has them; the pitch replaced by the overriding
/// pitch times the master pitch where `o` has one; and the volume, replaced or
/// not, multiplied by the track's volume of the moment.
pub open spec fn effective(t: TrackView, o: TrackOverrides, master_pitch: Fixed, track_volume: Fixed) -> TrackView {
    let volume = match o.volume {
        Some(v) => v,
        None => t.instrument.volume,
    };
    TrackView {
        instrument: InstrumentView {
            volume: Fixed {
                micros: product_micros(volume.micros as int, track_volume.micros as int) as i64,
            },
            pitch: match o.pitch {
                Some(p) => Fixed {
                    micros: product_micros(p.micros as int, master_pitch.micros as int) as i64,
                },
                None => t.instrument.pitch,
            },
            effects: overridden_effects(t.instrument.effects, o),
            ..t.instrument
        },
        tempo: match o.tempo {
            Some(x) => x,
            None => t.tempo,
        },
        ..t
    }
}

/// The plan of one placed melody: it starts at `start` seconds, rounded
/// down to a sample, and is rendered over its length in samples, rounded up.
pub open spec fn track_plan_of(
    t: TrackView,
    start: Fixed,
    o: TrackOverrides,
    p: ParamsView,
    rate: u32,
    source: int,
) -> TrackPlanView {
    let e = effective(t, o, p.master_pitch, volume_in(p, t.name));
    let total = held(ceil_samples(e.length, rate));
    TrackPlanView {
        source: source as usize,
        track: e,
        start: held(floor_samples(start, rate)),
        total,
        segments: segments_of(e.sequence, e.tempo, rate, total),
    }
}

/// The plans of the first `n` placed melodies: one for each that is enabled,
/// in order.
pub open spec fn track_plans_upto(a: ArrangementView, p: ParamsView, rate: u32, n: int) -> Seq<
    TrackPlanView,
>
    decreases n,
{
    if n <= 0 {
        Seq::empty()
    } else {
        let before = track_plans_upto(a, p, rate, n - 1);
        let placed = a.tracks[n - 1];
        if enabled_in(p, placed.0.name) {
            before.push(track_plan_of(placed.0, placed.1, placed.2, p, rate, n - 1))
        } else {
            before
        }
    }
}

/// The seconds of a fade that may be there, as samples.
pub open spec fn fade_samples(fade: Option<Fixed>, rate: u32) -> u64 {
    match fade {
        Some(d) => held(floor_samples(d, rate)),
        None => 0,
    }
}

/// The plan of a rendering of `a`: as long as `a` in samples, rounded up.
pub open spec fn plan_of(a: ArrangementView, p: ParamsView, rate: u32) -> RenderPlanView {
    RenderPlanView {
        length: held(ceil_samples(a.total_length, rate)),
        tracks: track_plans_upto(a, p, rate, a.tracks.len() as int),
        fade_in_samples: fade_samples(a.fade_in, rate),
        fade_out_samples: fade_samples(a.fade_out, rate),
    }
}

/// How many samples of a track, from its first, fall inside the rendering.
pub open spec fn audible_samples(start: u64, total: u64, length: u64) -> u64 {
    if start >= length {
        0
    } else if total > length - start {
        (length - start) as u64
    } else {
        total
    }
}

/// The fade at the start of a rendering: the sample `i` of the first
/// `fade_in` ones is multiplied by `i / fade_in`.
pub open spec fn plan_fade_in(i: u64, length: u64, fade_in: u64) -> Option<Ratio> {
    if i < fade_in && i < length {
        Some(Ratio { num: i as i128, den: fade_in as i128 })
    } else {
        None
    }
}

/// The fade at the end of a rendering: the sample `i` of the last `fade_out`
/// ones is multiplied by the samples from `i` to the end over `fade_out`.
pub open spec fn plan_fade_out(i: u64, length: u64, fade_out: u64) -> Option<Ratio> {
    if i < length && length - i <= fade_out {
        Some(Ratio { num: (length - i) as i128, den: fade_out as i128 })
    } else {
        None
    }
}

/// The second at which the sample `sample` is played, as `seconds_at`
/// gives it.
pub open spec fn seconds_at_spec(sample: u64, rate: u32) -> Fixed {
    Fixed {
        micros: (if micros_at(sample, rate) > i64::MAX {
            i64::MAX as int
        } else {
            micros_at(sample, rate)
        }) as i64,
    }
}

/// The seconds from the start of a track to the moment of the sample
/// `sample`, in millionths; negative before the track starts.
pub open spec fn track_micros(sample: u64, start: Fixed, rate: u32) -> int {
    (if micros_at(sample, rate) > i64::MAX {
        i64::MAX as int
    } else {
        micros_at(sample, rate)
    }) - start.micros
}

/// The length of an element in millionths of a beat; a negative length
/// counts as none.
pub open spec fn beat_length(e: ElementView) -> int {
    if beats_of(e).micros < 0 {
        0
    } else {
        beats_of(e).micros as int
    }
}

/// The element in which the beat position `at` falls, going through the
/// elements from `from` on, each as long as its beats; with it, how far into
/// the element the position is. A position in a rest, or after the last
/// element, is in no element.
pub open spec fn element_at(seq: Seq<ElementView>, from: int, at: int) -> Option<(int, int)>
    decreases seq.len() - from,
{
    if from < 0 || from >= seq.len() {
        None
    } else if at < beat_length(seq[from]) {
        if sounds(seq[from]) {
            Some((from, at))
        } else {
            None
        }
    } else {
        element_at(seq, from + 1, at - beat_length(seq[from]))
    }
}

/// Where the sample `sample` of the rendering falls in a track that starts
/// at `start` seconds: nowhere before the track starts or at a tempo of zero
/// or less; else in the element that holds its beat position.
pub open spec fn placement_of(t: TrackView, start: Fixed, sample: u64, rate: u32) -> Option<
    Placement,
> {
    let micros = track_micros(sample, start, rate);
    if micros < 0 || t.tempo.micros <= 0 {
        None
    } else {
        match element_at(t.sequence, 0, beats_in(micros, t.tempo)) {
            Some((k, into)) => Some(
                Placement {
                    element: k as usize,
                    time_in_note: Fixed { micros: clamp_i64(beat_micros(into, t.tempo)) as i64 },
                    duration: Fixed {
                        micros: clamp_i64(beat_micros(beat_length(t.sequence[k]), t.tempo)) as i64,
                    },
                },
            ),
            None => None,
        }
    }
}

/// The volume of a track in the output of the moment: the volume of its
/// instrument, times the overriding volume if there is one, times the
/// track's volume of the moment.
pub open spec fn voice_volume(t: TrackView, o: TrackOverrides, p: ParamsView) -> Fixed {
    let own = t.instrument.volume.micros as int;
    let placed = product_micros(
        own,
        match o.volume {
            Some(v) => v.micros as int,
            None => 1_000_000,
        },
    );
    Fixed { micros: product_micros(placed, volume_in(p, t.name).micros as int) as i64 }
}

/// What the placed melody `t` adds to the sample `sample` of the output:
/// nothing where it is disabled, has not started, or is in a rest or past
/// its end.
pub open spec fn voice_of(
    t: TrackView,
    start: Fixed,
    o: TrackOverrides,
    p: ParamsView,
    sample: u64,
    rate: u32,
    index: int,
) -> Option<Voice> {
    if !enabled_in(p, t.name) {
        None
    } else {
        match placement_of(t, start, sample, rate) {
            None => None,
            Some(at) => Some(
                Voice {
                    track: index as usize,
                    element: at.element,
                    track_time: Fixed { micros: clamp_i64(track_micros(sample, start, rate)) as i64 },
                    time_in_note: at.time_in_note,
                    duration: at.duration,
                    envelope: Fixed {
                        micros: envelope_of(at.time_in_note, at.duration, t.instrument) as i64,
                    },
                    volume: voice_volume(t, o, p),
                },
            ),
        }
    }
}

/// What the first `n` placed melodies add to the sample `sample`, in order.
pub open spec fn voices_upto(a: ArrangementView, p: ParamsView, sample: u64, rate: u32, n: int) -> Seq<
    Voice,
>
    decreases n,
{
    if n <= 0 {
        Seq::empty()
    } else {
        let before = voices_upto(a, p, sample, rate, n - 1);
        let placed = a.tracks[n - 1];
        match voice_of(placed.0, placed.1, placed.2, p, sample, rate, n - 1) {
            Some(v) => before.push(v),
            None => before,
        }
    }
}

/// What the melodies of `a` add to the sample `sample` of the output.
pub open spec fn voices_of(a: ArrangementView, p: ParamsView, sample: u64, rate: u32) -> Seq<Voice> {
    voices_upto(a, p, sample, rate, a.tracks.len() as int)
}

/// The onset of an element is no earlier than that of an earlier one.
proof fn lemma_onset_monotonic(seq: Seq<ElementView>, i: int, j: int, tempo: Fixed, rate: u32)
    requires
        0 <= i <= j,
    ensures
        0 <= onset(seq, i, tempo, rate) <= onset(seq, j, tempo, rate),
    decreases j,
{
    if i < j {
        lemma_onset_monotonic(seq, i, j - 1, tempo, rate);
        lemma_beat_samples_nonnegative(beats_of(seq[j - 1]), tempo, rate);
    } else if i > 0 {
        lemma_onset_monotonic(seq, 0, i - 1, tempo, rate);
        lemma_beat_samples_nonnegative(beats_of(seq[i - 1]), tempo, rate);
    }
}

proof fn lemma_beat_samples_nonnegative(beats: Fixed, tempo: Fixed, rate: u32)
    ensures
        beat_samples(beats, tempo, rate) >= 0,
{
    if beats.micros > 0 && tempo.micros > 0 {
        let n = beats.micros * 60 * rate;
        let d = tempo.micros as int;
        assert(n >= 0) by (nonlinear_arith)
            requires
                n == beats.micros * 60 * rate,
                beats.micros > 0,
                rate >= 0,
        ;
        assert(n / d >= 0) by (nonlinear_arith)
            requires
                n >= 0,
                d > 0,
        ;
    }
}

proof fn lemma_rests_upto(seq: Seq<ElementView>, n: int, tempo: Fixed, rate: u32, total: u64)
    requires
        0 <= n <= seq.len(),
        forall|k: int| 0 <= k < seq.len() ==> !sounds(#[trigger] seq[k]),
    ensures
        segments_upto(seq, n, tempo, rate, total) == Seq::<Segment>::empty(),
    decreases n,
{
    if n > 0 {
        lemma_rests_upto(seq, n - 1, tempo, rate, total);
        assert(!sounds(seq[n - 1]));
    }
}

/// A melody of rests alone has no run of samples, wherever it is placed and
/// whatever its overrides and the settings: nothing of it sounds.
pub proof fn lemma_rests_are_silent(
    t: TrackView,
    start: Fixed,
    o: TrackOverrides,
    p: ParamsView,
    rate: u32,
    source: int,
)
    requires
        forall|k: int| 0 <= k < t.sequence.len() ==> !sounds(#[trigger] t.sequence[k]),
    ensures
        track_plan_of(t, start, o, p, rate, source).segments == Seq::<Segment>::empty(),
        forall|sample: u64| (#[trigger] voice_of(t, start, o, p, sample, rate, source)).is_none(),
{
    let e = effective(t, o, p.master_pitch, volume_in(p, t.name));
    assert(e.sequence == t.sequence);
    lemma_rests_upto(
        e.sequence,
        e.sequence.len() as int,
        e.tempo,
        rate,
        held(ceil_samples(e.length, rate)),
    );
    assert forall|sample: u64| (#[trigger] voice_of(
        t,
        start,
        o,
        p,
        sample,
        rate,
        source,
    )).is_none() by {
        let micros = track_micros(sample, start, rate);
        lemma_rests_hold_no_moment(t.sequence, 0, beats_in(micros, t.tempo));
    }
}

proof fn lemma_rests_hold_no_moment(seq: Seq<ElementView>, from: int, at: int)
    requires
        forall|k: int| 0 <= k < seq.len() ==> !sounds(#[trigger] seq[k]),
    ensures
        element_at(seq, from, at).is_none(),
    decreases seq.len() - from,
{
    if 0 <= from < seq.len() {
        assert(!sounds(seq[from]));
        if at >= beat_length(seq[from]) {
            lemma_rests_hold_no_moment(seq, from + 1, at - beat_length(seq[from]));
        }
    }
}

/// The runs of a track follow one another without overlap, in the order of
/// its elements, and none reaches past the samples that are rendered.
pub proof fn lemma_runs_do_not_overlap(seq: Seq<ElementView>, tempo: Fixed, rate: u32, total: u64)
    ensures
        forall|i: int|
            0 <= i < segments_of(seq, tempo, rate, total).len() ==> {
                let s = #[trigger] segments_of(seq, tempo, rate, total)[i];
                s.start + s.length <= total
            },
        forall|i: int, j: int|
            0 <= i < j < segments_of(seq, tempo, rate, total).len() ==> {
                let a = #[trigger] segments_of(seq, tempo, rate, total)[i];
                let b = #[trigger] segments_of(seq, tempo, rate, total)[j];
                a.start + a.length <= b.start
            },
{
    lemma_segments_in_order(seq, seq.len() as int, tempo, rate, total);
}

proof fn lemma_segments_in_order(seq: Seq<ElementView>, n: int, tempo: Fixed, rate: u32, total: u64)
    requires
        0 <= n <= seq.len(),
    ensures
        forall|i: int|
            0 <= i < segments_upto(seq, n, tempo, rate, total).len() ==> {
                let s = #[trigger] segments_upto(seq, n, tempo, rate, total)[i];
                s.start + s.length <= total && s.start + s.length <= onset(seq, n, tempo, rate)
            },
        forall|i: int, j: int|
            0 <= i < j < segments_upto(seq, n, tempo, rate, total).len() ==> {
                let a = #[trigger] segments_upto(seq, n, tempo, rate, total)[i];
                let b = #[trigger] segments_upto(seq, n, tempo, rate, total)[j];
                a.start + a.length <= b.start
            },
    decreases n,
{
    if n > 0 {
        lemma_segments_in_order(seq, n - 1, tempo, rate, total);
        lemma_onset_monotonic(seq, 0, n - 1, tempo, rate);
        lemma_beat_samples_nonnegative(beats_of(seq[n - 1]), tempo, rate);
        let before = segments_upto(seq, n - 1, tempo, rate, total);
        let all = segments_upto(seq, n, tempo, rate, total);
        assert forall|i: int| 0 <= i < all.len() implies {
            let s = #[trigger] all[i];
            s.start + s.length <= total && s.start + s.length <= onset(seq, n, tempo, rate)
        } by {
            if i < before.len() {
                assert(all[i] == before[i]);
            }
        }
        assert forall|i: int, j: int| 0 <= i < j < all.len() implies {
            let a = #[trigger] all[i];
            let b = #[trigger] all[j];
            a.start + a.length <= b.start
        } by {
            assert(all[i] == before[i]);
            if j < before.len() {
                assert(all[j] == before[j]);
            }
        }
    }
}

proof fn lemma_disabled_upto(a: ArrangementView, p: ParamsView, sample: u64, rate: u32, n: int)
    requires
        0 <= n <= a.tracks.len(),
        forall|i: int| 0 <= i < a.tracks.len() ==> !enabled_in(p, (#[trigger] a.tracks[i]).0.name),
    ensures
        track_plans_upto(a, p, rate, n) == Seq::<TrackPlanView>::empty(),
        voices_upto(a, p, sample, rate, n) == Seq::<Voice>::empty(),
    decreases n,
{
    if n > 0 {
        lemma_disabled_upto(a, p, sample, rate, n - 1);
        assert(!enabled_in(p, a.tracks[n - 1].0.name));
    }
}

/// With every track disabled, no track is rendered and no track adds to any
/// sample of the output: all is silent.
pub proof fn lemma_disabled_tracks_are_silent(a: ArrangementView, p: ParamsView, sample: u64, rate: u32)
    requires
        forall|i: int| 0 <= i < a.tracks.len() ==> !enabled_in(p, (#[trigger] a.tracks[i]).0.name),
    ensures
        plan_of(a, p, rate).tracks == Seq::<TrackPlanView>::empty(),
        voices_of(a, p, sample, rate) == Seq::<Voice>::empty(),
{
    lemma_disabled_upto(a, p, sample, rate, a.tracks.len() as int);
}

/// Overrides that hold nothing, at a track volume of 1, leave a melody as it
/// is, whatever the master pitch.
pub proof fn lemma_no_overrides(t: TrackView, master_pitch: Fixed)
    ensures
        effective(t, TrackOverrides::none(), master_pitch, Fixed { micros: 1_000_000 }) == t,
{
    let v = t.instrument.volume.micros as int;
    if v >= 0 {
        assert(v * 1_000_000 / 1_000_000 == v) by (nonlinear_arith);
    } else {
        assert((-(v * 1_000_000)) / 1_000_000 == -v) by (nonlinear_arith);
    }
    assert(product_micros(v, 1_000_000) == v);
    assert(overridden_effects(t.instrument.effects, TrackOverrides::none())
        == t.instrument.effects);
}

/// The effects of `own`, each replaced by the one in `overrides` where there
/// is one.
pub fn effective_effects(own: &EffectsChain, overrides: &TrackOverrides) -> (r: EffectsChain)
    ensures
        r == overridden_effects(*own, *overrides),
{
    EffectsChain {
        reverb: if overrides.reverb.is_some() {
            overrides.reverb
        } else {
            own.reverb
        },
        delay: if overrides.delay.is_some() {
            overrides.delay
        } else {
            own.delay
        },
        distortion: if overrides.distortion.is_some() {
            overrides.distortion
        } else {
            own.distortion
        },
        filter: if overrides.filter.is_some() {
            overrides.filter
        } else {
            own.filter
        },
    }
}

/// The melody as it plays under the overrides of its placement.
pub fn effective_track(
    track: &MelodyTrack,
    overrides: &TrackOverrides,
    master_pitch: Fixed,
    track_volume: Fixed,
) -> (r: MelodyTrack)
    ensures
        r@ == effective(track@, *overrides, master_pitch, track_volume),
{
    let mut t: MelodyTrack = track.clone();
    match overrides.volume {
        Some(v) => {
            t.instrument.volume = v;
        },
        None => {},
    }
    match overrides.pitch {
        Some(p) => {
            t.instrument.pitch = p.times(master_pitch);
        },
        None => {},
    }
    match overrides.tempo {
        Some(x) => {
            t.tempo = x;
        },
        None => {},
    }
    t.instrument.effects = effective_effects(&track.instrument.effects, overrides);
    t.instrument.volume = t.instrument.volume.times(track_volume);
    t
}

/// The runs of samples of the notes and chords of `sequence`, within the
/// first `total` samples of the track.
pub fn plan_segments(sequence: &Vec<SequenceElement>, tempo: Fixed, rate: u32, total: u64) -> (r: Vec<
    Segment,
>)
    ensures
        r@ == segments_of(element_views(sequence@), tempo, rate, total),
{
    let n: usize = sequence.len();
    let ghost seq = element_views(sequence@);
    let mut out: Vec<Segment> = Vec::new();
    let mut cursor: u64 = 0;
    let mut i: usize = 0;
    while i < n
        invariant
            i <= n,
            n == sequence@.len(),
            seq == element_views(sequence@),
            cursor == held(onset(seq, i as int, tempo, rate)),
            out@ == segments_upto(seq, i as int, tempo, rate, total),
        decreases n - i,
    {
        let beats: Fixed = sequence[i].beats();
        let length: u64 = samples_of_beats(beats, tempo, rate);
        proof {
            lemma_onset_monotonic(seq, 0, i as int, tempo, rate);
            lemma_beat_samples_nonnegative(beats, tempo, rate);
            assert(seq[i as int] == sequence@[i as int]@);
        }
        let is_rest: bool = match &sequence[i] {
            SequenceElement::Rest(_) => true,
            _ => false,
        };
        if !is_rest && cursor < total {
            let room: u64 = total - cursor;
            out.push(
                Segment {
                    element: i,
                    start: cursor,
                    length: if length > room {
                        room
                    } else {
                        length
                    },
                },
            );
        }
        cursor = if length > u64::MAX - cursor {
            u64::MAX
        } else {
            cursor + length
        };
        i += 1;
    }
    out
}

impl TrackPlan {
    /// How many samples of the track, from its first, fall inside a
    /// rendering of `length` samples. The rest is dropped.
    pub fn audible(&self, length: u64) -> (r: u64)
        ensures
            r == audible_samples(self.start, self.total, length),
            self.start + r <= length || r == 0,
            r <= self.total,
    {
        if self.start >= length {
            0
        } else if self.total > length - self.start {
            length - self.start
        } else {
            self.total
        }
    }

    /// The length of the block of the track's rendering that begins at
    /// `offset`: `CHUNK_SIZE` samples, or what is left of the track.
    pub fn chunk_len(&self, offset: u64) -> (r: u64)
        ensures
            r == (if offset >= self.total {
                0
            } else if self.total - offset > CHUNK_SIZE {
                CHUNK_SIZE as int
            } else {
                self.total - offset
            }),
    {
        if offset >= self.total {
            0
        } else if self.total - offset > CHUNK_SIZE {
            CHUNK_SIZE
        } else {
            self.total - offset
        }
    }
}

impl RenderPlan {
    /// By what the sample `i` of the rendering is multiplied for the fade
    /// in and for the fade out, where one applies.
    pub fn fade_at(&self, i: u64) -> (r: (Option<Ratio>, Option<Ratio>))
        ensures
            r.0 == plan_fade_in(i, self.length, self.fade_in_samples),
            r.1 == plan_fade_out(i, self.length, self.fade_out_samples),
    {
        let fade_in: Option<Ratio> = if i < self.fade_in_samples && i < self.length {
            Some(Ratio { num: i as i128, den: self.fade_in_samples as i128 })
        } else {
            None
        };
        let fade_out: Option<Ratio> = if i < self.length && self.length - i
            <= self.fade_out_samples {
            Some(Ratio { num: (self.length - i) as i128, den: self.fade_out_samples as i128 })
        } else {
            None
        };
        (fade_in, fade_out)
    }
}

/// The plan of a rendering of `arrangement` under the settings `params`, at
/// `rate` samples per second.
pub fn plan_arrangement(arrangement: &Arrangement, params: &DynamicParameters, rate: u32) -> (r:
    RenderPlan)
    ensures
        r@ == plan_of(arrangement@, params@, rate),
        r.length == held(ceil_samples(arrangement.total_length, rate)),
{
    let n: usize = arrangement.tracks.len();
    let mut tracks: Vec<TrackPlan> = Vec::new();
    let mut i: usize = 0;
    assert(plan_views(tracks@) =~= Seq::empty());
    while i < n
        invariant
            i <= n,
            n == arrangement.tracks@.len(),
            plan_views(tracks@) == track_plans_upto(arrangement@, params@, rate, i as int),
        decreases n - i,
    {
        let placed = &arrangement.tracks[i];
        proof {
            assert(arrangement@.tracks[i as int] == (placed.0@, placed.1, placed.2));
        }
        if params.is_enabled(placed.0.name.as_str()) {
            let volume: Fixed = params.volume_of(placed.0.name.as_str());
            let track: MelodyTrack = effective_track(
                &placed.0,
                &placed.2,
                params.master_pitch,
                volume,
            );
            let total: u64 = samples_ceil(track.length, rate);
            let segments: Vec<Segment> = plan_segments(&track.sequence, track.tempo, rate, total);
            let ghost before = plan_views(tracks@);
            let plan = TrackPlan {
                source: i,
                track,
                start: samples_floor(placed.1, rate),
                total,
                segments,
            };
            let ghost added = plan@;
            tracks.push(plan);
            assert(plan_views(tracks@) =~= before.push(added));
        }
        i += 1;
    }
    RenderPlan {
        length: samples_ceil(arrangement.total_length, rate),
        tracks,
        fade_in_samples: match arrangement.fade_in {
            Some(d) => samples_floor(d, rate),
            None => 0,
        },
        fade_out_samples: match arrangement.fade_out {
            Some(d) => samples_floor(d, rate),
            None => 0,
        },
    }
}

/// Where the sample `sample` of the output falls in `track`, which starts at
/// `start` seconds: in which note or chord, and how far into it.
pub fn locate(track: &MelodyTrack, start: Fixed, sample: u64, rate: u32) -> (r: Option<Placement>)
    ensures
        r == placement_of(track@, start, sample, rate),
{
    let now: Fixed = seconds_at(sample, rate);
    let micros: i128 = now.micros as i128 - start.micros as i128;
    if micros < 0 || track.tempo.micros <= 0 {
        return None;
    }
    let tempo: u128 = track.tempo.micros as u128;
    assert(micros * tempo <= 0x1_0000_0000_0000_0000 * 0x7fff_ffff_ffff_ffff) by (nonlinear_arith)
        requires
            0 <= micros <= 0x1_0000_0000_0000_0000,
            0 <= tempo <= 0x7fff_ffff_ffff_ffff,
    ;
    let position: u128 = (micros as u128) * tempo / 60_000_000;
    let n: usize = track.sequence.len();
    let ghost seq = element_views(track.sequence@);
    let ghost at = beats_in(micros as int, track.tempo);
    let mut left: u128 = position;
    let mut i: usize = 0;
    proof {
        if micros == 0 {
            assert(micros * tempo == 0) by (nonlinear_arith)
                requires
                    micros == 0,
            ;
        }
        assert(micros * tempo == micros * track.tempo.micros) by (nonlinear_arith)
            requires
                tempo == track.tempo.micros,
        ;
    }
    while i < n
        invariant
            i <= n,
            n == track.sequence@.len(),
            seq == element_views(track.sequence@),
            tempo == track.tempo.micros,
            tempo > 0,
            left <= position,
            position <= 0x1_0000_0000_0000_0000 * 0x7fff_ffff_ffff_ffff / 60_000_000,
            micros == track_micros(sample, start, rate),
            micros >= 0,
            at == beats_in(micros as int, track.tempo),
            element_at(seq, 0, at) == element_at(seq, i as int, left as int),
        decreases n - i,
    {
        let beats: Fixed = track.sequence[i].beats();
        let length: u128 = if beats.micros < 0 {
            0
        } else {
            beats.micros as u128
        };
        proof {
            assert(seq[i as int] == track.sequence@[i as int]@);
        }
        if left < length {
            let is_rest: bool = match &track.sequence[i] {
                SequenceElement::Rest(_) => true,
                _ => false,
            };
            if is_rest {
                return None;
            }
            let into: u128 = left * 60_000_000 / tempo;
            let whole: u128 = length * 60_000_000 / tempo;
            return Some(
                Placement {
                    element: i,
                    time_in_note: Fixed {
                        micros: if into > 0x7fff_ffff_ffff_ffff {
                            0x7fff_ffff_ffff_ffff
                        } else {
                            into as i64
                        },
                    },
                    duration: Fixed {
                        micros: if whole > 0x7fff_ffff_ffff_ffff {
                            0x7fff_ffff_ffff_ffff
                        } else {
                            whole as i64
                        },
                    },
                },
            );
        }
        left = left - length;
        i += 1;
    }
    None
}

/// What the melodies of `arrangement` add to the sample `sample` of the
/// output, under the settings `params`: one voice for each enabled track
/// that has a note or a chord at that moment.
pub fn voices_at(arrangement: &Arrangement, params: &DynamicParameters, sample: u64, rate: u32) -> (r:
    Vec<Voice>)
    ensures
        r@ == voices_of(arrangement@, params@, sample, rate),
{
    let n: usize = arrangement.tracks.len();
    let now: Fixed = seconds_at(sample, rate);
    let mut voices: Vec<Voice> = Vec::new();
    let mut i: usize = 0;
    while i < n
        invariant
            i <= n,
            n == arrangement.tracks@.len(),
            now == seconds_at_spec(sample, rate),
            voices@ == voices_upto(arrangement@, params@, sample, rate, i as int),
        decreases n - i,
    {
        let placed = &arrangement.tracks[i];
        proof {
            assert(arrangement@.tracks[i as int] == (placed.0@, placed.1, placed.2));
        }
        if params.is_enabled(placed.0.name.as_str()) {
            match locate(&placed.0, placed.1, sample, rate) {
                Some(at) => {
                    let since: i128 = now.micros as i128 - placed.1.micros as i128;
                    let factor: Fixed = match placed.2.volume {
                        Some(v) => v,
                        None => Fixed { micros: 1_000_000 },
                    };
                    let volume: Fixed = placed.0.instrument.volume.times(factor).times(
                        params.volume_of(placed.0.name.as_str()),
                    );
                    voices.push(
                        Voice {
                            track: i,
                            element: at.element,
                            track_time: Fixed {
                                micros: if since > 0x7fff_ffff_ffff_ffff {
                                    0x7fff_ffff_ffff_ffff
                                } else {
                                    since as i64
                                },
                            },
                            time_in_note: at.time_in_note,
                            duration: at.duration,
                            envelope: calculate_envelope(
                                at.time_in_note,
                                at.duration,
                                &placed.0.instrument,
                            ),
                            volume,
                        },
                    );
                },
                None => {},
            }
        }
        i += 1;
    }
    voices
}

impl SynthEngine {
    /// The plan of a rendering of `arrangement` at the engine's sample rate,
    /// with the settings with which playback starts.
    pub fn synthesize_arrangement(&self, arrangement: &Arrangement) -> (r: RenderPlan)
        ensures
            r@ == plan_of(arrangement@, crate::engine::default_params(), self.sample_rate),
    {
        let params: DynamicParameters = DynamicParameters::default();
        plan_arrangement(arrangement, &params, self.sample_rate)
    }
}

} // verus!
