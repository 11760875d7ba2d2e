//! The playback engine: which arrangement plays, at which sample, in which
//! state, and what each control call and each output frame does to that.
//!
//! The engine holds no audio device. The program that owns the device asks
//! the engine, frame by frame, what to play and how loud, and tells it to
//! step on.

use vstd::prelude::*;
use vstd::string::StringExecFns;
use crate::arrangement::{arrangement_of, Arrangement, ArrangementView, TrackOverrides};
use crate::cache::Cache;
use crate::error::SynthError;
use crate::fixed::{Fixed, Ratio};
use crate::instrument::{SampleData, SampleView};
use crate::timing::{floor_samples, held, micros_at, samples_floor, seconds_at};
use crate::track::{melody_of, MelodyTrack, TrackView};
use crate::wav::{read_wav, wav_contents};

verus! {

#[derive(Clone, Copy, Debug, PartialEq, Eq, Structural)]
pub enum PlaybackState {
    Stopped,
    Playing,
    Paused,
}

/// What can be changed while an arrangement plays.
pub struct DynamicParameters {
    /// From 0 to 2.
    pub master_volume: Fixed,
    /// From 0.5 to 2.
    pub master_pitch: Fixed,
    /// The volume of a track by its name, from 0 to 2; 1 where none is set.
    pub track_volumes: Cache<Fixed>,
    /// Whether a track sounds, by its name; it does where nothing is set.
    pub track_enabled: Cache<bool>,
    /// In seconds.
    pub crossfade_duration: Fixed,
}

pub struct ParamsView {
    pub master_volume: Fixed,
    pub master_pitch: Fixed,
    pub track_volumes: Map<Seq<char>, Fixed>,
    pub track_enabled: Map<Seq<char>, bool>,
    pub crossfade_duration: Fixed,
}

/// A change from the playing arrangement to another, frame by frame.
pub struct CrossfadeState {
    pub target_arrangement: Arrangement,
    /// The frames taken since the change began.
    pub progress: u64,
    pub duration_samples: u64,
}

pub struct CrossfadeView {
    pub target: ArrangementView,
    pub progress: u64,
    pub duration_samples: u64,
}

/// What is playing.
pub struct PlaybackContext {
    pub arrangement: Arrangement,
    /// The index of the next sample to play.
    pub current_sample: u64,
    pub state: PlaybackState,
    pub loop_enabled: bool,
    pub dynamic_params: DynamicParameters,
    /// For each track volume that is on its way to a target, under the name
    /// `vol_` and the track's name, the seconds that the way takes.
    pub param_interpolators: Cache<Fixed>,
    pub crossfade_state: Option<CrossfadeState>,
}

pub struct ContextView {
    pub arrangement: ArrangementView,
    pub current_sample: u64,
    pub state: PlaybackState,
    pub loop_enabled: bool,
    pub params: ParamsView,
    pub interpolators: Map<Seq<char>, Fixed>,
    pub crossfade: Option<CrossfadeView>,
}

/// The engine: the loaded samples and melodies, the sample rate of the
/// output, and what is playing, if anything is.
pub struct SynthEngine {
    pub mel_cache: Cache<MelodyTrack>,
    pub sample_cache: Cache<SampleData>,
    pub sample_rate: u32,
    pub playback_context: Option<PlaybackContext>,
}

/// What the next frame is made of: the sample index at which the playing
/// arrangement is taken and, during a crossfade, the share of the target
/// arrangement, taken at the same index; the playing one has the rest.
#[derive(Clone, Copy, Debug, PartialEq, Eq, Structural)]
pub struct FrameMix {
    pub position: u64,
    pub target_share: Option<Ratio>,
}

/// By what a frame is multiplied before it goes out: the fades of the
/// arrangement, where one applies, and the master volume.
#[derive(Clone, Copy, Debug, PartialEq, Eq, Structural)]
pub struct FrameGain {
    pub fade_in: Option<Ratio>,
    pub fade_out: Option<Ratio>,
    pub master_volume: Fixed,
}

impl View for DynamicParameters {
    type V = ParamsView;

    open spec fn view(&self) -> ParamsView {
        ParamsView {
            master_volume: self.master_volume,
            master_pitch: self.master_pitch,
            track_volumes: self.track_volumes@,
            track_enabled: self.track_enabled@,
            crossfade_duration: self.crossfade_duration,
        }
    }
}

impl View for CrossfadeState {
    type V = CrossfadeView;

    open spec fn view(&self) -> CrossfadeView {
        CrossfadeView {
            target: self.target_arrangement@,
            progress: self.progress,
            duration_samples: self.duration_samples,
        }
    }
}

/// The view of a crossfade that may be there.
pub open spec fn crossfade_view(x: Option<CrossfadeState>) -> Option<CrossfadeView> {
    match x {
        Some(s) => Some(s@),
        None => None,
    }
}

impl View for PlaybackContext {
    type V = ContextView;

    open spec fn view(&self) -> ContextView {
        ContextView {
            arrangement: self.arrangement@,
            current_sample: self.current_sample,
            state: self.state,
            loop_enabled: self.loop_enabled,
            params: self.dynamic_params@,
            interpolators: self.param_interpolators@,
            crossfade: crossfade_view(self.crossfade_state),
        }
    }
}

/// The settings with which playback starts: full volume, pitch unchanged,
/// nothing set for any track.
pub open spec fn default_params() -> ParamsView {
    ParamsView {
        master_volume: Fixed { micros: 1_000_000 },
        master_pitch: Fixed { micros: 1_000_000 },
        track_volumes: Map::empty(),
        track_enabled: Map::empty(),
        crossfade_duration: Fixed { micros: 1_000_000 },
    }
}

/// The table that holds `v` under each of `names`.
pub open spec fn seeded<V>(names: Seq<Seq<char>>, v: V) -> Map<Seq<char>, V>
    decreases names.len(),
{
    if names.len() == 0 {
        Map::empty()
    } else {
        seeded(names.drop_last(), v).insert(names.last(), v)
    }
}

/// The names of the melodies placed in an arrangement, in order.
pub open spec fn track_names(a: ArrangementView) -> Seq<Seq<char>> {
    a.tracks.map_values(|p: (TrackView, Fixed, TrackOverrides)| p.0.name)
}

/// The context in which `a` starts to play: at sample 0, playing, without
/// loop or crossfade, each of its tracks enabled at volume 1.
pub open spec fn started(a: ArrangementView) -> ContextView {
    ContextView {
        arrangement: a,
        current_sample: 0,
        state: PlaybackState::Playing,
        loop_enabled: false,
        params: ParamsView {
            track_volumes: seeded(track_names(a), Fixed { micros: 1_000_000 }),
            track_enabled: seeded(track_names(a), true),
            ..default_params()
        },
        interpolators: Map::empty(),
        crossfade: None,
    }
}

/// Whether the track `name` sounds: it does unless it is set not to.
pub open spec fn enabled_in(p: ParamsView, name: Seq<char>) -> bool {
    if p.track_enabled.dom().contains(name) {
        p.track_enabled[name]
    } else {
        true
    }
}

/// The volume of the track `name`: 1 unless another is set.
pub open spec fn volume_in(p: ParamsView, name: Seq<char>) -> Fixed {
    if p.track_volumes.dom().contains(name) {
        p.track_volumes[name]
    } else {
        Fixed { micros: 1_000_000 }
    }
}

/// The number held to the range from `lo` to `hi` millionths.
pub open spec fn limited(v: Fixed, lo: int, hi: int) -> Fixed {
    if v.micros < lo {
        Fixed { micros: lo as i64 }
    } else if v.micros > hi {
        Fixed { micros: hi as i64 }
    } else {
        v
    }
}

/// What the next frame is made of.
pub open spec fn mix_of(c: ContextView) -> FrameMix {
    FrameMix {
        position: c.current_sample,
        target_share: match c.crossfade {
            Some(x) => Some(share_of(x)),
            None => None,
        },
    }
}

/// The share of the target arrangement in the next frame of a crossfade: the
/// frames taken over the frames of the crossfade. In a crossfade of no
/// length the target has the whole frame.
pub open spec fn share_of(x: CrossfadeView) -> Ratio {
    if x.duration_samples == 0 {
        Ratio { num: 1, den: 1 }
    } else {
        Ratio { num: x.progress as i128, den: x.duration_samples as i128 }
    }
}

/// The arrangement that stops playing when the crossfade moves one frame on:
/// the playing one, where the crossfade ends with that frame.
pub open spec fn retired_by(c: ContextView) -> Option<ArrangementView> {
    match c.crossfade {
        Some(x) => if x.progress + 1 >= x.duration_samples {
            Some(c.arrangement)
        } else {
            None
        },
        None => None,
    }
}

/// The view of an arrangement that may be there.
pub open spec fn arrangement_view(a: Option<Arrangement>) -> Option<ArrangementView> {
    match a {
        Some(x) => Some(x@),
        None => None,
    }
}

/// The context `k` frames on.
pub open spec fn steps(c: ContextView, rate: u32, k: nat) -> ContextView
    decreases k,
{
    if k == 0 {
        c
    } else {
        stepped(steps(c, rate, (k - 1) as nat), rate)
    }
}

/// The arrangement that a crossfade replaced in the course of `k` frames: the
/// one that played at first, where a crossfade was under way then and is over
/// after the frames.
pub open spec fn retired_in(c: ContextView, rate: u32, k: nat) -> Option<ArrangementView> {
    if c.crossfade.is_some() && steps(c, rate, k).crossfade.is_none() {
        Some(c.arrangement)
    } else {
        None
    }
}

/// The crossfade, if there is one, one frame on: when the frames taken reach
/// its length, the target arrangement becomes the playing one and the
/// crossfade is over.
pub open spec fn crossfade_advanced(c: ContextView) -> ContextView {
    match c.crossfade {
        None => c,
        Some(x) => if x.progress + 1 >= x.duration_samples {
            ContextView { arrangement: x.target, crossfade: None, ..c }
        } else {
            ContextView {
                crossfade: Some(CrossfadeView { progress: (x.progress + 1) as u64, ..x }),
                ..c
            }
        },
    }
}

/// The sample index after `index`.
pub open spec fn following(index: u64) -> u64 {
    if index == u64::MAX {
        u64::MAX
    } else {
        (index + 1) as u64
    }
}

/// The position one frame on. With the loop enabled: where the arrangement
/// has a loop point and the new position is at or past its end, playback
/// jumps to its start; where it has none and the new position is at or past
/// the end of the arrangement, it starts again at 0. With the loop disabled,
/// playback stops at the end of the arrangement.
pub open spec fn position_advanced(c: ContextView, rate: u32) -> ContextView {
    let next = following(c.current_sample);
    let total = held(floor_samples(c.arrangement.total_length, rate));
    if c.loop_enabled {
        match c.arrangement.loop_point {
            Some(lp) => if next * 1_000_000 >= lp.end.micros * rate {
                ContextView { current_sample: held(floor_samples(lp.start, rate)), ..c }
            } else {
                ContextView { current_sample: next, ..c }
            },
            None => ContextView {
                current_sample: if next >= total {
                    0
                } else {
                    next
                },
                ..c
            },
        }
    } else {
        ContextView {
            current_sample: next,
            state: if next >= total {
                PlaybackState::Stopped
            } else {
                c.state
            },
            ..c
        }
    }
}

/// The context one frame on.
pub open spec fn stepped(c: ContextView, rate: u32) -> ContextView {
    position_advanced(crossfade_advanced(c), rate)
}

/// The fade at the start of an arrangement: before `fade_in` seconds have
/// passed, the time that has passed over `fade_in`.
pub open spec fn fade_in_at(a: ArrangementView, sample: u64, rate: u32) -> Option<Ratio> {
    match a.fade_in {
        Some(d) => if sample * 1_000_000 < d.micros * rate {
            Some(Ratio { num: (sample * 1_000_000) as i128, den: (d.micros * rate) as i128 })
        } else {
            None
        },
        None => None,
    }
}

/// The fade at the end of an arrangement: in its last `fade_out` seconds,
/// the time that is left over `fade_out`.
pub open spec fn fade_out_at(a: ArrangementView, sample: u64, rate: u32) -> Option<Ratio> {
    match a.fade_out {
        Some(d) => if sample * 1_000_000 > (a.total_length.micros - d.micros) * rate {
            Some(
                Ratio {
                    num: (a.total_length.micros * rate - sample * 1_000_000) as i128,
                    den: (d.micros * rate) as i128,
                },
            )
        } else {
            None
        },
        None => None,
    }
}

/// By what the frame that was just taken is multiplied. The fades go by the
/// position after the step.
pub open spec fn gain_of(c: ContextView, rate: u32) -> FrameGain {
    FrameGain {
        fade_in: fade_in_at(c.arrangement, c.current_sample, rate),
        fade_out: fade_out_at(c.arrangement, c.current_sample, rate),
        master_volume: c.params.master_volume,
    }
}

/// A name stands in a seeded table if and only if it is one of the names,
/// and then the seeded value stands under it.
pub proof fn lemma_seeded<V>(names: Seq<Seq<char>>, v: V, name: Seq<char>)
    ensures
        seeded(names, v).dom().contains(name) <==> names.contains(name),
        names.contains(name) ==> seeded(names, v)[name] == v,
    decreases names.len(),
{
    if names.len() > 0 {
        let front = names.drop_last();
        lemma_seeded(front, v, name);
        if names.contains(name) {
            let i = choose|i: int| 0 <= i < names.len() && names[i] == name;
            if i < names.len() - 1 {
                assert(front[i] == name);
            }
        }
        if front.contains(name) {
            let i = choose|i: int| 0 <= i < front.len() && front[i] == name;
            assert(names[i] == name);
        }
    }
}

/// A crossfade of no length is over after one frame: that frame is the
/// target's alone, and after it the target arrangement is the playing one and
/// no crossfade is left.
pub proof fn lemma_instant_crossfade(c: ContextView, target: ArrangementView, rate: u32)
    ensures
        mix_of(
            ContextView {
                crossfade: Some(CrossfadeView { target, progress: 0, duration_samples: 0 }),
                ..c
            },
        ).target_share == Some(Ratio { num: 1, den: 1 }),
        stepped(
            ContextView {
                crossfade: Some(CrossfadeView { target, progress: 0, duration_samples: 0 }),
                ..c
            },
            rate,
        ).arrangement == target,
        stepped(
            ContextView {
                crossfade: Some(CrossfadeView { target, progress: 0, duration_samples: 0 }),
                ..c
            },
            rate,
        ).crossfade.is_none(),
{
}

/// A crossfade of `n` frames is over after `n` frames, and not before: after
/// `k` frames of it, `k` frames have been taken.
pub proof fn lemma_crossfade_progress(c: ContextView, k: nat)
    requires
        c.crossfade.is_some(),
        c.crossfade.unwrap().progress == 0,
        k < c.crossfade.unwrap().duration_samples,
    ensures
        crossfade_steps(c, k).crossfade == Some(
            CrossfadeView { progress: k as u64, ..c.crossfade.unwrap() },
        ),
        crossfade_steps(c, k).arrangement == c.arrangement,
        k + 1 == c.crossfade.unwrap().duration_samples ==> crossfade_steps(
            c,
            k + 1,
        ).crossfade.is_none() && crossfade_steps(c, k + 1).arrangement
            == c.crossfade.unwrap().target,
    decreases k,
{
    if k > 0 {
        lemma_crossfade_progress(c, (k - 1) as nat);
    }
    reveal_with_fuel(crossfade_steps, 2);
}

/// The context after `k` frames, as far as the crossfade goes.
pub open spec fn crossfade_steps(c: ContextView, k: nat) -> ContextView
    decreases k,
{
    if k == 0 {
        c
    } else {
        crossfade_advanced(crossfade_steps(c, (k - 1) as nat))
    }
}

impl Default for DynamicParameters {
    fn default() -> (r: Self)
        ensures
            r@ == default_params(),
    {
        DynamicParameters {
            master_volume: Fixed { micros: 1_000_000 },
            master_pitch: Fixed { micros: 1_000_000 },
            track_volumes: Cache::new(),
            track_enabled: Cache::new(),
            crossfade_duration: Fixed { micros: 1_000_000 },
        }
    }
}

impl DynamicParameters {
    /// Whether the track `name` sounds.
    pub fn is_enabled(&self, name: &str) -> (r: bool)
        ensures
            r == enabled_in(self@, name@),
    {
        match self.track_enabled.get(name) {
            Some(b) => *b,
            None => true,
        }
    }

    /// The volume of the track `name`.
    pub fn volume_of(&self, name: &str) -> (r: Fixed)
        ensures
            r == volume_in(self@, name@),
    {
        match self.track_volumes.get(name) {
            Some(v) => *v,
            None => Fixed { micros: 1_000_000 },
        }
    }
}

impl PlaybackContext {
    /// The context in which `arrangement` starts to play.
    pub fn start(arrangement: Arrangement) -> (r: PlaybackContext)
        ensures
            r@ == started(arrangement@),
    {
        let mut params: DynamicParameters = DynamicParameters::default();
        let n: usize = arrangement.tracks.len();
        let ghost names = track_names(arrangement@);
        let mut i: usize = 0;
        assert(names.take(0) =~= Seq::<Seq<char>>::empty());
        while i < n
            invariant
                i <= n,
                n == arrangement.tracks@.len(),
                names == track_names(arrangement@),
                params.master_volume.micros == 1_000_000,
                params.master_pitch.micros == 1_000_000,
                params.crossfade_duration.micros == 1_000_000,
                params.track_enabled@ == seeded(names.take(i as int), true),
                params.track_volumes@ == seeded(names.take(i as int), Fixed { micros: 1_000_000 }),
            decreases n - i,
        {
            proof {
                assert(names.take(i + 1).drop_last() =~= names.take(i as int));
                assert(names.take(i + 1).last() == arrangement.tracks@[i as int].0@.name);
            }
            params.track_enabled.insert(arrangement.tracks[i].0.name.as_str(), true);
            params.track_volumes.insert(
                arrangement.tracks[i].0.name.as_str(),
                Fixed { micros: 1_000_000 },
            );
            i += 1;
        }
        assert(names.take(n as int) =~= names);
        PlaybackContext {
            arrangement,
            current_sample: 0,
            state: PlaybackState::Playing,
            loop_enabled: false,
            dynamic_params: params,
            param_interpolators: Cache::new(),
            crossfade_state: None,
        }
    }

    /// What the next frame is made of.
    pub fn mix(&self) -> (r: FrameMix)
        ensures
            r == mix_of(self@),
    {
        FrameMix {
            position: self.current_sample,
            target_share: match &self.crossfade_state {
                Some(x) => Some(
                    if x.duration_samples == 0 {
                        Ratio { num: 1, den: 1 }
                    } else {
                        Ratio { num: x.progress as i128, den: x.duration_samples as i128 }
                    },
                ),
                None => None,
            },
        }
    }

    /// Moves the crossfade, if there is one, one frame on. Where it ends, the
    /// arrangement that played until now is handed back.
    fn advance_crossfade(self) -> (r: (PlaybackContext, Option<Arrangement>))
        ensures
            r.0@ == crossfade_advanced(self@),
            arrangement_view(r.1) == retired_by(self@),
    {
        let mut c = self;
        match c.crossfade_state.take() {
            None => (c, None),
            Some(x) => {
                if x.duration_samples == 0 || x.progress >= x.duration_samples - 1 {
                    let gone: Arrangement = c.arrangement;
                    c.arrangement = x.target_arrangement;
                    (c, Some(gone))
                } else {
                    let mut y = x;
                    y.progress = y.progress + 1;
                    c.crossfade_state = Some(y);
                    (c, None)
                }
            },
        }
    }

    /// Moves the position one frame on.
    fn advance_position(self, rate: u32) -> (r: PlaybackContext)
        ensures
            r@ == position_advanced(self@, rate),
    {
        let mut c = self;
        let next: u64 = if c.current_sample == u64::MAX {
            u64::MAX
        } else {
            c.current_sample + 1
        };
        let total: u64 = samples_floor(c.arrangement.total_length, rate);
        if c.loop_enabled {
            match c.arrangement.loop_point {
                Some(lp) => {
                    assert(-0x8000_0000_0000_0000 * 0xffff_ffff <= lp.end.micros * rate
                        <= 0x7fff_ffff_ffff_ffff * 0xffff_ffff) by (nonlinear_arith)
                        requires
                            -0x8000_0000_0000_0000 <= lp.end.micros <= 0x7fff_ffff_ffff_ffff,
                            0 <= rate <= 0xffff_ffff,
                    ;
                    if (next as i128) * 1_000_000 >= (lp.end.micros as i128) * (rate as i128) {
                        c.current_sample = samples_floor(lp.start, rate);
                    } else {
                        c.current_sample = next;
                    }
                },
                None => {
                    c.current_sample = if next >= total {
                        0
                    } else {
                        next
                    };
                },
            }
        } else {
            c.current_sample = next;
            if next >= total {
                c.state = PlaybackState::Stopped;
            }
        }
        c
    }

    /// By what the frame that was just taken is multiplied.
    pub fn gain(&self, rate: u32) -> (r: FrameGain)
        ensures
            r == gain_of(self@, rate),
    {
        let at: i128 = (self.current_sample as i128) * 1_000_000;
        let total: i128 = self.arrangement.total_length.micros as i128;
        let fade_in: Option<Ratio> = match self.arrangement.fade_in {
            Some(d) => {
                assert(-0x8000_0000_0000_0000 * 0xffff_ffff <= d.micros * rate
                    <= 0x7fff_ffff_ffff_ffff * 0xffff_ffff) by (nonlinear_arith)
                    requires
                        -0x8000_0000_0000_0000 <= d.micros <= 0x7fff_ffff_ffff_ffff,
                        0 <= rate <= 0xffff_ffff,
                ;
                let whole: i128 = (d.micros as i128) * (rate as i128);
                if at < whole {
                    Some(Ratio { num: at, den: whole })
                } else {
                    None
                }
            },
            None => None,
        };
        let fade_out: Option<Ratio> = match self.arrangement.fade_out {
            Some(d) => {
                assert(-0x8000_0000_0000_0000 * 0xffff_ffff <= d.micros * rate
                    <= 0x7fff_ffff_ffff_ffff * 0xffff_ffff) by (nonlinear_arith)
                    requires
                        -0x8000_0000_0000_0000 <= d.micros <= 0x7fff_ffff_ffff_ffff,
                        0 <= rate <= 0xffff_ffff,
                ;
                assert(-0x8000_0000_0000_0000 * 0xffff_ffff <= total * rate
                    <= 0x7fff_ffff_ffff_ffff * 0xffff_ffff) by (nonlinear_arith)
                    requires
                        -0x8000_0000_0000_0000 <= total <= 0x7fff_ffff_ffff_ffff,
                        0 <= rate <= 0xffff_ffff,
                ;
                assert(-0x1_0000_0000_0000_0000 * 0xffff_ffff <= (total - d.micros) * rate
                    <= 0x1_0000_0000_0000_0000 * 0xffff_ffff) by (nonlinear_arith)
                    requires
                        -0x1_0000_0000_0000_0000 <= total - d.micros <= 0x1_0000_0000_0000_0000,
                        0 <= rate <= 0xffff_ffff,
                ;
                let whole: i128 = (d.micros as i128) * (rate as i128);
                let start: i128 = (total - d.micros as i128) * (rate as i128);
                if at > start {
                    Some(Ratio { num: total * (rate as i128) - at, den: whole })
                } else {
                    None
                }
            },
            None => None,
        };
        FrameGain { fade_in, fade_out, master_volume: self.dynamic_params.master_volume }
    }

    /// Takes one frame: moves the crossfade and the position on, says by
    /// what the frame is multiplied, and hands back the arrangement that
    /// played until now where the crossfade ends with this frame.
    pub fn step(self, rate: u32) -> (r: (PlaybackContext, FrameGain, Option<Arrangement>))
        ensures
            r.0@ == stepped(self@, rate),
            r.1 == gain_of(stepped(self@, rate), rate),
            arrangement_view(r.2) == retired_by(self@),
    {
        let (faded, gone) = self.advance_crossfade();
        let c = faded.advance_position(rate);
        let g = c.gain(rate);
        (c, g, gone)
    }
}

/// The frames of one callback of the audio output.
pub struct CallbackFrames {
    /// For each frame, what it is made of and by what it is multiplied.
    pub frames: Vec<(FrameMix, FrameGain)>,
    /// The arrangement that a crossfade replaced in the course of these
    /// frames. It is the playing one of the frames that have a target share;
    /// their target is the arrangement that plays now.
    pub retired: Option<Arrangement>,
}

/// The view of a context that may be there.
pub open spec fn context_view(c: Option<PlaybackContext>) -> Option<ContextView> {
    match c {
        Some(x) => Some(x@),
        None => None,
    }
}

impl SynthEngine {
    /// What is playing, as a mathematical value.
    pub open spec fn context(&self) -> Option<ContextView> {
        context_view(self.playback_context)
    }

    /// The state that `get_playback_state` reports.
    pub open spec fn state(&self) -> PlaybackState {
        match self.context() {
            Some(c) => c.state,
            None => PlaybackState::Stopped,
        }
    }

    /// The sample index that `get_playback_position` reports as a time.
    pub open spec fn position(&self) -> u64 {
        match self.context() {
            Some(c) => c.current_sample,
            None => 0,
        }
    }

    /// Whether all but what is playing is as in `other`.
    pub open spec fn same_setup(&self, other: &SynthEngine) -> bool {
        &&& self.mel_cache@ == other.mel_cache@
        &&& self.sample_cache@ == other.sample_cache@
        &&& self.sample_rate == other.sample_rate
    }

    /// An engine for an output of `sample_rate` samples per second, with
    /// nothing loaded and nothing playing. A rate of zero is no rate.
    pub fn new(sample_rate: u32) -> (r: Result<SynthEngine, SynthError>)
        ensures
            sample_rate == 0 ==> r.is_err(),
            sample_rate > 0 ==> r.is_ok() && r.unwrap().sample_rate == sample_rate
                && r.unwrap().context().is_none() && r.unwrap().mel_cache@ == Map::<
                Seq<char>,
                MelodyTrack,
            >::empty() && r.unwrap().sample_cache@ == Map::<Seq<char>, SampleData>::empty(),
    {
        if sample_rate == 0 {
            return Err(SynthError::AudioError(String::from_str("Sample rate is zero")));
        }
        Ok(
            SynthEngine {
                mel_cache: Cache::new(),
                sample_cache: Cache::new(),
                sample_rate,
                playback_context: None,
            },
        )
    }

    /// The loaded samples.
    pub fn get_sample_cache(&self) -> (r: &Cache<SampleData>)
        ensures
            r@ == self.sample_cache@,
    {
        &self.sample_cache
    }

    /// Puts the recording `data` into the sample cache under `name`.
    pub fn add_sample(&mut self, name: &str, data: SampleData)
        ensures
            final(self).sample_cache@ == old(self).sample_cache@.insert(name@, data),
            final(self).mel_cache@ == old(self).mel_cache@,
            final(self).sample_rate == old(self).sample_rate,
            final(self).context() == old(self).context(),
    {
        self.sample_cache.insert(name, data);
    }

    /// Loads a sample from the bytes of a WAV file into the sample cache,
    /// under `name`. The result tells the sample rate and the number of
    /// channels of the file. Bytes that cannot be decoded give a file error
    /// and change nothing.
    pub fn load_sample(&mut self, name: &str, bytes: &[u8]) -> (r: Result<(u32, u16), SynthError>)
        ensures
            final(self).mel_cache@ == old(self).mel_cache@,
            final(self).sample_rate == old(self).sample_rate,
            final(self).context() == old(self).context(),
            match wav_contents(bytes@) {
                Some((rate, channels, samples)) => r == Ok::<(u32, u16), SynthError>(
                    (rate, channels),
                ) && final(self).sample_cache@.dom() == old(self).sample_cache@.dom().insert(name@)
                    && final(self).sample_cache@[name@]@ == (SampleView {
                    samples,
                    sample_rate: rate,
                }) && forall|other: Seq<char>|
                    other != name@ && old(self).sample_cache@.dom().contains(other)
                        ==> #[trigger] final(self).sample_cache@[other] == old(
                        self,
                    ).sample_cache@[other],
                None => r matches Err(e) && e@ is File && final(self).sample_cache@ == old(
                    self,
                ).sample_cache@,
            },
    {
        match read_wav(bytes) {
            Ok(audio) => {
                let rate: u32 = audio.sample_rate;
                let channels: u16 = audio.channels;
                self.add_sample(name, SampleData::new(audio.samples, rate));
                Ok((rate, channels))
            },
            Err(e) => Err(e),
        }
    }

    /// Reads the melody score `content` and puts the melody into the melody
    /// cache under `name`. A faulty score gives its first fault and changes
    /// nothing.
    pub fn load_melody(&mut self, name: &str, content: &str) -> (r: Result<(), SynthError>)
        ensures
            final(self).sample_cache@ == old(self).sample_cache@,
            final(self).sample_rate == old(self).sample_rate,
            final(self).context() == old(self).context(),
            match melody_of(content@, old(self).sample_cache@) {
                Ok(t) => r is Ok && final(self).mel_cache@.dom() == old(
                    self,
                ).mel_cache@.dom().insert(name@) && final(self).mel_cache@[name@]@ == t
                    && forall|other: Seq<char>|
                    other != name@ && old(self).mel_cache@.dom().contains(other)
                        ==> #[trigger] final(self).mel_cache@[other] == old(self).mel_cache@[other],
                Err(f) => r matches Err(e) && e@ == f && final(self).mel_cache@ == old(
                    self,
                ).mel_cache@,
            },
    {
        match MelodyTrack::from_mel(content, &self.sample_cache) {
            Ok(track) => {
                self.mel_cache.insert(name, track);
                Ok(())
            },
            Err(e) => Err(e),
        }
    }

    /// Reads the arrangement score `content` against the loaded melodies.
    pub fn load_arrangement(&self, content: &str) -> (r: Result<Arrangement, SynthError>)
        ensures
            match arrangement_of(content@, self.mel_cache@) {
                Ok(a) => r matches Ok(x) && x@ == a,
                Err(f) => r matches Err(e) && e@ == f,
            },
    {
        Arrangement::from_bmi(content, &self.mel_cache)
    }

    /// Starts to play `arrangement` from its first sample, in place of what
    /// was playing.
    pub fn play_arrangement(&mut self, arrangement: Arrangement)
        ensures
            final(self).context() == Some(started(arrangement@)),
            final(self).same_setup(old(self)),
    {
        self.stop();
        self.playback_context = Some(PlaybackContext::start(arrangement));
    }

    /// Begins a change to `new_arrangement` over `duration` seconds. Where
    /// nothing is playing, `new_arrangement` starts to play at once.
    pub fn crossfade_to(&mut self, new_arrangement: Arrangement, duration: Fixed)
        ensures
            final(self).same_setup(old(self)),
            final(self).context() == Some(
                match old(self).context() {
                    Some(c) => ContextView {
                        crossfade: Some(
                            CrossfadeView {
                                target: new_arrangement@,
                                progress: 0,
                                duration_samples: held(floor_samples(duration, old(self).sample_rate)),
                            },
                        ),
                        ..c
                    },
                    None => started(new_arrangement@),
                },
            ),
    {
        match self.playback_context.take() {
            Some(c) => {
                let mut ctx = c;
                ctx.crossfade_state = Some(
                    CrossfadeState {
                        target_arrangement: new_arrangement,
                        progress: 0,
                        duration_samples: samples_floor(duration, self.sample_rate),
                    },
                );
                self.playback_context = Some(ctx);
            },
            None => {
                self.play_arrangement(new_arrangement);
            },
        }
    }

    /// Enables or disables the loop. Nothing changes where nothing plays.
    pub fn set_loop_enabled(&mut self, enabled: bool)
        ensures
            final(self).same_setup(old(self)),
            final(self).context() == (match old(self).context() {
                Some(c) => Some(ContextView { loop_enabled: enabled, ..c }),
                None => None,
            }),
    {
        match self.playback_context.take() {
            Some(c) => {
                let mut ctx = c;
                ctx.loop_enabled = enabled;
                self.playback_context = Some(ctx);
            },
            None => {},
        }
    }

    /// From playing to paused. Nothing changes in any other state.
    pub fn pause(&mut self)
        ensures
            final(self).same_setup(old(self)),
            final(self).context() == (match old(self).context() {
                Some(c) => Some(
                    ContextView {
                        state: if c.state == PlaybackState::Playing {
                            PlaybackState::Paused
                        } else {
                            c.state
                        },
                        ..c
                    },
                ),
                None => None,
            }),
    {
        match self.playback_context.take() {
            Some(c) => {
                let mut ctx = c;
                match ctx.state {
                    PlaybackState::Playing => {
                        ctx.state = PlaybackState::Paused;
                    },
                    _ => {},
                }
                self.playback_context = Some(ctx);
            },
            None => {},
        }
    }

    /// From paused to playing. Nothing changes in any other state.
    pub fn resume(&mut self)
        ensures
            final(self).same_setup(old(self)),
            final(self).context() == (match old(self).context() {
                Some(c) => Some(
                    ContextView {
                        state: if c.state == PlaybackState::Paused {
                            PlaybackState::Playing
                        } else {
                            c.state
                        },
                        ..c
                    },
                ),
                None => None,
            }),
    {
        match self.playback_context.take() {
            Some(c) => {
                let mut ctx = c;
                match ctx.state {
                    PlaybackState::Paused => {
                        ctx.state = PlaybackState::Playing;
                    },
                    _ => {},
                }
                self.playback_context = Some(ctx);
            },
            None => {},
        }
    }

    /// Ends playback: nothing is playing afterwards, and a crossfade that was
    /// under way is gone. The state is stopped and the position 0.
    pub fn stop(&mut self)
        ensures
            final(self).same_setup(old(self)),
            final(self).context().is_none(),
            final(self).state() == PlaybackState::Stopped,
            final(self).position() == 0,
    {
        self.playback_context = None;
    }

    /// Sets the master volume, held to the range from 0 to 2.
    pub fn set_master_volume(&mut self, volume: Fixed)
        ensures
            final(self).same_setup(old(self)),
            final(self).context() == (match old(self).context() {
                Some(c) => Some(
                    ContextView {
                        params: ParamsView {
                            master_volume: limited(volume, 0, 2_000_000),
                            ..c.params
                        },
                        ..c
                    },
                ),
                None => None,
            }),
    {
        match self.playback_context.take() {
            Some(c) => {
                let mut ctx = c;
                ctx.dynamic_params.master_volume = volume.clamp(
                    Fixed { micros: 0 },
                    Fixed { micros: 2_000_000 },
                );
                self.playback_context = Some(ctx);
            },
            None => {},
        }
    }

    /// Sets the master pitch, held to the range from 0.5 to 2.
    pub fn set_master_pitch(&mut self, pitch: Fixed)
        ensures
            final(self).same_setup(old(self)),
            final(self).context() == (match old(self).context() {
                Some(c) => Some(
                    ContextView {
                        params: ParamsView {
                            master_pitch: limited(pitch, 500_000, 2_000_000),
                            ..c.params
                        },
                        ..c
                    },
                ),
                None => None,
            }),
    {
        match self.playback_context.take() {
            Some(c) => {
                let mut ctx = c;
                ctx.dynamic_params.master_pitch = pitch.clamp(
                    Fixed { micros: 500_000 },
                    Fixed { micros: 2_000_000 },
                );
                self.playback_context = Some(ctx);
            },
            None => {},
        }
    }

    /// Lets the track `track_name` sound or not.
    pub fn set_track_enabled(&mut self, track_name: &str, enabled: bool)
        ensures
            final(self).same_setup(old(self)),
            final(self).context() == (match old(self).context() {
                Some(c) => Some(
                    ContextView {
                        params: ParamsView {
                            track_enabled: c.params.track_enabled.insert(track_name@, enabled),
                            ..c.params
                        },
                        ..c
                    },
                ),
                None => None,
            }),
    {
        match self.playback_context.take() {
            Some(c) => {
                let mut ctx = c;
                ctx.dynamic_params.track_enabled.insert(track_name, enabled);
                self.playback_context = Some(ctx);
            },
            None => {},
        }
    }

    /// Sets the volume of the track `track_name`, held to the range from 0
    /// to 2.
    pub fn set_track_volume(&mut self, track_name: &str, volume: Fixed)
        ensures
            final(self).same_setup(old(self)),
            final(self).context() == (match old(self).context() {
                Some(c) => Some(
                    ContextView {
                        params: ParamsView {
                            track_volumes: c.params.track_volumes.insert(
                                track_name@,
                                limited(volume, 0, 2_000_000),
                            ),
                            ..c.params
                        },
                        ..c
                    },
                ),
                None => None,
            }),
    {
        match self.playback_context.take() {
            Some(c) => {
                let mut ctx = c;
                ctx.dynamic_params.track_volumes.insert(
                    track_name,
                    volume.clamp(Fixed { micros: 0 }, Fixed { micros: 2_000_000 }),
                );
                self.playback_context = Some(ctx);
            },
            None => {},
        }
    }

    /// Sets the volume of the track `track_name` to `target`, as it is, and
    /// notes under `vol_` and the track's name that the way there is meant to
    /// take `duration` seconds.
    pub fn interpolate_track_volume(&mut self, track_name: &str, target: Fixed, duration: Fixed)
        ensures
            final(self).same_setup(old(self)),
            final(self).context() == (match old(self).context() {
                Some(c) => Some(
                    ContextView {
                        params: ParamsView {
                            track_volumes: c.params.track_volumes.insert(track_name@, target),
                            ..c.params
                        },
                        interpolators: c.interpolators.insert("vol_"@ + track_name@, duration),
                        ..c
                    },
                ),
                None => None,
            }),
    {
        match self.playback_context.take() {
            Some(c) => {
                let mut ctx = c;
                let key: String = String::from_str("vol_").concat(track_name);
                ctx.param_interpolators.insert(key.as_str(), duration);
                ctx.dynamic_params.track_volumes.insert(track_name, target);
                self.playback_context = Some(ctx);
            },
            None => {},
        }
    }

    /// The time of the next sample to play, in seconds; 0 where nothing plays.
    pub fn get_playback_position(&self) -> (r: Fixed)
        ensures
            r.micros == (if micros_at(self.position(), self.sample_rate) > i64::MAX {
                i64::MAX as int
            } else {
                micros_at(self.position(), self.sample_rate)
            }),
            self.context().is_none() ==> r.micros == 0,
    {
        match &self.playback_context {
            Some(c) => seconds_at(c.current_sample, self.sample_rate),
            None => Fixed { micros: 0 },
        }
    }

    /// The index of the next sample to play; 0 where nothing plays.
    pub fn current_sample(&self) -> (r: u64)
        ensures
            r == self.position(),
    {
        match &self.playback_context {
            Some(c) => c.current_sample,
            None => 0,
        }
    }

    /// The state of playback; stopped where nothing plays.
    pub fn get_playback_state(&self) -> (r: PlaybackState)
        ensures
            r == self.state(),
    {
        match &self.playback_context {
            Some(c) => c.state,
            None => PlaybackState::Stopped,
        }
    }

    /// What the next frame is made of, where something is playing. In any
    /// other state the output is silence.
    pub fn next_frame(&self) -> (r: Option<FrameMix>)
        ensures
            r == (match self.context() {
                Some(c) => if c.state == PlaybackState::Playing {
                    Some(mix_of(c))
                } else {
                    None
                },
                None => None,
            }),
    {
        match &self.playback_context {
            Some(c) => match c.state {
                PlaybackState::Playing => Some(c.mix()),
                _ => None,
            },
            None => None,
        }
    }

    /// Takes one frame of what is there to play, whatever the state: moves a
    /// crossfade and the position on and says by what the frame is
    /// multiplied. Without anything to play it does nothing.
    pub fn step(&mut self) -> (r: Option<FrameGain>)
        ensures
            final(self).same_setup(old(self)),
            match old(self).context() {
                Some(c) => final(self).context() == Some(stepped(c, old(self).sample_rate)) && r
                    == Some(gain_of(stepped(c, old(self).sample_rate), old(self).sample_rate)),
                None => final(self).context().is_none() && r.is_none(),
            },
    {
        match self.playback_context.take() {
            Some(c) => {
                let (next, gain, _) = c.step(self.sample_rate);
                self.playback_context = Some(next);
                Some(gain)
            },
            None => None,
        }
    }

    /// One callback of the audio output, for `frames` frames. Unless an
    /// arrangement is playing, nothing changes and there is nothing to play:
    /// the output is silence. Else the frames are taken one after the
    /// other, also where playback stops in their course, and the result says
    /// of each what it is made of and by what it is multiplied.
    pub fn callback(&mut self, frames: usize) -> (r: Option<CallbackFrames>)
        ensures
            final(self).same_setup(old(self)),
            match old(self).context() {
                Some(c) => if c.state == PlaybackState::Playing {
                    &&& final(self).context() == Some(steps(c, old(self).sample_rate, frames as nat))
                    &&& r matches Some(out) && out.frames@.len() == frames && arrangement_view(
                        out.retired,
                    ) == retired_in(c, old(self).sample_rate, frames as nat) && forall|i: int|
                        0 <= i < frames ==> #[trigger] out.frames@[i] == (
                            mix_of(steps(c, old(self).sample_rate, i as nat)),
                            gain_of(
                                steps(c, old(self).sample_rate, (i + 1) as nat),
                                old(self).sample_rate,
                            ),
                        )
                } else {
                    final(self).context() == old(self).context() && r.is_none()
                },
                None => final(self).context().is_none() && r.is_none(),
            },
    {
        if self.get_playback_state() != PlaybackState::Playing {
            return None;
        }
        let rate: u32 = self.sample_rate;
        let mut ctx: PlaybackContext = match self.playback_context.take() {
            Some(c) => c,
            None => {
                return None;
            },
        };
        let ghost first = ctx@;
        let mut out: Vec<(FrameMix, FrameGain)> = Vec::new();
        let mut retired: Option<Arrangement> = None;
        let mut i: usize = 0;
        while i < frames
            invariant
                i <= frames,
                ctx@ == steps(first, rate, i as nat),
                out@.len() == i,
                forall|j: int|
                    0 <= j < i ==> #[trigger] out@[j] == (
                        mix_of(steps(first, rate, j as nat)),
                        gain_of(steps(first, rate, (j + 1) as nat), rate),
                    ),
                ctx@.crossfade.is_some() ==> first.crossfade.is_some() && ctx@.arrangement
                    == first.arrangement && retired.is_none(),
                ctx@.crossfade.is_none() ==> arrangement_view(retired) == (if first.crossfade.is_some() {
                    Some(first.arrangement)
                } else {
                    None
                }),
            decreases frames - i,
        {
            let mix: FrameMix = ctx.mix();
            let (next, gain, gone) = ctx.step(rate);
            out.push((mix, gain));
            match gone {
                Some(a) => {
                    retired = Some(a);
                },
                None => {},
            }
            ctx = next;
            i += 1;
        }
        self.playback_context = Some(ctx);
        Some(CallbackFrames { frames: out, retired })
    }
}

} // verus!
