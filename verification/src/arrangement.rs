//! Arrangements and the arrangement score format.
//!
//! An arrangement places melodies on a common time axis. Its score is read
//! line by line like a melody score; a `track:` line names a loaded melody,
//! says when it starts, and may override some of its settings.

use vstd::prelude::*;
use vstd::string::StringExecFns;
use crate::cache::Cache;
use crate::effects::{
    DelayParams,
    DistortionParams,
    FilterParams,
    FilterType,
    ReverbParams,
};
use crate::error::{Fault, SynthError};
use crate::fixed::{clamp_i64, number_of, number_or, parse_decimal, parse_decimal_or, Fixed};
use crate::text::{
    chars_of,
    fields,
    is_comment,
    reads_exactly,
    split,
    split_fields,
    split_on,
    split_once,
    split_pair,
    starts_comment,
    string_of,
    strip_prefix,
    trim,
    trimmed,
    views,
    without_prefix,
};
use crate::track::{
    delay_of,
    distortion_of,
    filter_of,
    reverb_of,
    LoopPoint,
    MelodyTrack,
    TrackView,
};

verus! {

/// What one placement of a melody changes about it. An effect that is given
/// here replaces the melody's effect of that kind.
#[derive(Clone, Copy, Debug, PartialEq, Eq, Structural)]
pub struct TrackOverrides {
    pub volume: Option<Fixed>,
    pub pitch: Option<Fixed>,
    pub tempo: Option<Fixed>,
    pub pan: Option<Fixed>,
    pub reverb: Option<ReverbParams>,
    pub delay: Option<DelayParams>,
    pub distortion: Option<DistortionParams>,
    pub filter: Option<FilterParams>,
}

/// Melodies on a common time axis: each with the second at which it starts
/// and with its overrides. `total_length` is the latest end of any of them.
#[derive(Debug)]
pub struct Arrangement {
    pub name: String,
    pub tracks: Vec<(MelodyTrack, Fixed, TrackOverrides)>,
    pub total_length: Fixed,
    pub loop_point: Option<LoopPoint>,
    /// A tempo that every placed melody takes, whatever its own.
    pub master_tempo: Option<Fixed>,
    pub fade_in: Option<Fixed>,
    pub fade_out: Option<Fixed>,
}

pub struct ArrangementView {
    pub name: Seq<char>,
    pub tracks: Seq<(TrackView, Fixed, TrackOverrides)>,
    pub total_length: Fixed,
    pub loop_point: Option<LoopPoint>,
    pub master_tempo: Option<Fixed>,
    pub fade_in: Option<Fixed>,
    pub fade_out: Option<Fixed>,
}

/// The views of placed melodies.
pub open spec fn placed_views(s: Seq<(MelodyTrack, Fixed, TrackOverrides)>) -> Seq<
    (TrackView, Fixed, TrackOverrides),
> {
    s.map_values(|p: (MelodyTrack, Fixed, TrackOverrides)| (p.0@, p.1, p.2))
}

impl View for Arrangement {
    type V = ArrangementView;

    open spec fn view(&self) -> ArrangementView {
        ArrangementView {
            name: self.name@,
            tracks: placed_views(self.tracks@),
            total_length: self.total_length,
            loop_point: self.loop_point,
            master_tempo: self.master_tempo,
            fade_in: self.fade_in,
            fade_out: self.fade_out,
        }
    }
}

/// The keys of an arrangement score, in the order in which a line is held
/// against them.
#[derive(Clone, Copy, Debug, PartialEq, Eq, Structural)]
pub enum BmiKey {
    Name,
    MasterTempo,
    FadeIn,
    FadeOut,
    Loop,
    Track,
}

/// The word that a key is written as.
pub open spec fn bmi_key_word(k: BmiKey) -> Seq<char> {
    match k {
        BmiKey::Name => "name:"@,
        BmiKey::MasterTempo => "master_tempo:"@,
        BmiKey::FadeIn => "fade_in:"@,
        BmiKey::FadeOut => "fade_out:"@,
        BmiKey::Loop => "loop:"@,
        BmiKey::Track => "track:"@,
    }
}

pub open spec fn bmi_keys() -> Seq<BmiKey> {
    seq![
        BmiKey::Name,
        BmiKey::MasterTempo,
        BmiKey::FadeIn,
        BmiKey::FadeOut,
        BmiKey::Loop,
        BmiKey::Track,
    ]
}

/// The first of `keys` whose word starts `line`, with what follows the word.
pub open spec fn bmi_key_of(line: Seq<char>, keys: Seq<BmiKey>) -> Option<(BmiKey, Seq<char>)>
    decreases keys.len(),
{
    if keys.len() == 0 {
        None
    } else {
        match without_prefix(line, bmi_key_word(keys[0])) {
            Some(rest) => Some((keys[0], rest)),
            None => bmi_key_of(line, keys.drop_first()),
        }
    }
}

/// The arrangement before the first line of its score is read.
pub open spec fn empty_arrangement() -> ArrangementView {
    ArrangementView {
        name: "song"@,
        tracks: Seq::empty(),
        total_length: Fixed { micros: 0 },
        loop_point: None,
        master_tempo: None,
        fade_in: None,
        fade_out: None,
    }
}

/// What one `key=value` after the start time of a track does to its
/// overrides. The numbers of an effect stand in the value with `:` between
/// them. A number that cannot be read leaves a plain override unset and gives
/// a number of an effect its usual value; an effect with too few numbers and
/// an unknown key change nothing.
pub open spec fn override_of(o: TrackOverrides, param: Seq<char>) -> TrackOverrides {
    match split_pair(param, '=') {
        None => o,
        Some((k, v)) => {
            let key = trimmed(k);
            let value = trimmed(v);
            let numbers = split_on(value, ':');
            if key == "volume"@ || key == "vol"@ {
                TrackOverrides { volume: number_of(value), ..o }
            } else if key == "pitch"@ {
                TrackOverrides { pitch: number_of(value), ..o }
            } else if key == "tempo"@ {
                TrackOverrides { tempo: number_of(value), ..o }
            } else if key == "pan"@ {
                TrackOverrides { pan: number_of(value), ..o }
            } else if key == "filter"@ {
                if numbers.len() >= 3 {
                    TrackOverrides { filter: Some(filter_of(numbers)), ..o }
                } else {
                    o
                }
            } else if key == "reverb"@ {
                if numbers.len() >= 4 {
                    TrackOverrides { reverb: Some(reverb_of(numbers)), ..o }
                } else {
                    o
                }
            } else if key == "delay"@ {
                if numbers.len() >= 3 {
                    TrackOverrides { delay: Some(delay_of(numbers)), ..o }
                } else {
                    o
                }
            } else if key == "distortion"@ || key == "dist"@ {
                if numbers.len() >= 3 {
                    TrackOverrides { distortion: Some(distortion_of(numbers)), ..o }
                } else {
                    o
                }
            } else {
                o
            }
        },
    }
}

/// The overrides after all of `params`, taken in order.
pub open spec fn overrides_of(o: TrackOverrides, params: Seq<Seq<char>>) -> TrackOverrides
    decreases params.len(),
{
    if params.len() == 0 {
        o
    } else {
        overrides_of(override_of(o, params[0]), params.drop_first())
    }
}

/// The tempo at which a placed melody plays: the master tempo if there is
/// one, else the overriding tempo if there is one, else its own.
pub open spec fn placed_tempo(own: Fixed, o: TrackOverrides, master: Option<Fixed>) -> Fixed {
    match master {
        Some(m) => m,
        None => match o.tempo {
            Some(t) => t,
            None => own,
        },
    }
}

/// The arrangement with the melody `t` placed at `start`.
pub open spec fn with_track(a: ArrangementView, t: TrackView, start: Fixed, o: TrackOverrides) -> ArrangementView {
    let end = clamp_i64(start.micros + t.length.micros);
    ArrangementView {
        tracks: a.tracks.push(
            (TrackView { tempo: placed_tempo(t.tempo, o, a.master_tempo), ..t }, start, o),
        ),
        total_length: if end > a.total_length.micros {
            Fixed { micros: end as i64 }
        } else {
            a.total_length
        },
        ..a
    }
}

/// What has been read of a score: the arrangement so far, and the names on
/// `track:` lines that are names of no loaded melody.
pub struct Reading {
    pub arrangement: ArrangementView,
    pub missing: Seq<Seq<char>>,
}

/// What a line with the key `key` and the rest `v` does. A `track:` line
/// with fewer than two fields does nothing; one whose start time is no number
/// is a fault; one that names no loaded melody adds the name to the missing
/// ones and places nothing.
pub open spec fn bmi_apply(
    s: Reading,
    key: BmiKey,
    v: Seq<char>,
    melodies: Map<Seq<char>, MelodyTrack>,
) -> Result<Reading, Fault> {
    let a = s.arrangement;
    let p = fields(v, ',');
    match key {
        BmiKey::Name => Ok(Reading { arrangement: ArrangementView { name: trimmed(v), ..a }, ..s }),
        BmiKey::MasterTempo => Ok(
            Reading {
                arrangement: ArrangementView { master_tempo: number_of(trimmed(v)), ..a },
                ..s
            },
        ),
        BmiKey::FadeIn => Ok(
            Reading { arrangement: ArrangementView { fade_in: number_of(trimmed(v)), ..a }, ..s },
        ),
        BmiKey::FadeOut => Ok(
            Reading { arrangement: ArrangementView { fade_out: number_of(trimmed(v)), ..a }, ..s },
        ),
        BmiKey::Loop => Ok(
            if p.len() >= 2 {
                Reading {
                    arrangement: ArrangementView {
                        loop_point: Some(
                            LoopPoint {
                                start: number_or(p[0], Fixed { micros: 0 }),
                                end: number_or(p[1], a.total_length),
                            },
                        ),
                        ..a
                    },
                    ..s
                }
            } else {
                s
            },
        ),
        BmiKey::Track => if p.len() >= 2 {
            match number_of(p[1]) {
                None => Err(Fault::Parse("Invalid start time"@)),
                Some(start) => if melodies.dom().contains(p[0]) {
                    Ok(
                        Reading {
                            arrangement: with_track(
                                a,
                                melodies[p[0]]@,
                                start,
                                overrides_of(TrackOverrides::none(), p.skip(2)),
                            ),
                            ..s
                        },
                    )
                } else {
                    Ok(Reading { missing: s.missing.push(p[0]), ..s })
                },
            }
        } else {
            Ok(s)
        },
    }
}

/// What one trimmed line of a score does.
pub open spec fn bmi_line(s: Reading, line: Seq<char>, melodies: Map<Seq<char>, MelodyTrack>) -> Result<
    Reading,
    Fault,
> {
    if line.len() == 0 || is_comment(line) {
        Ok(s)
    } else {
        match bmi_key_of(line, bmi_keys()) {
            Some((key, v)) => bmi_apply(s, key, v, melodies),
            None => Ok(s),
        }
    }
}

/// What has been read after all of `lines`, or up to the first fault, and
/// that fault.
pub open spec fn bmi_lines(
    s: Reading,
    lines: Seq<Seq<char>>,
    melodies: Map<Seq<char>, MelodyTrack>,
) -> (Reading, Option<Fault>)
    decreases lines.len(),
{
    if lines.len() == 0 {
        (s, None)
    } else {
        match bmi_line(s, lines[0], melodies) {
            Ok(next) => bmi_lines(next, lines.drop_first(), melodies),
            Err(f) => (s, Some(f)),
        }
    }
}

/// What reading the whole score `content` gives.
pub open spec fn reading_of(content: Seq<char>, melodies: Map<Seq<char>, MelodyTrack>) -> (
    Reading,
    Option<Fault>,
) {
    bmi_lines(
        Reading { arrangement: empty_arrangement(), missing: Seq::empty() },
        fields(content, '\n'),
        melodies,
    )
}

/// The arrangement that a score describes: what was read, unless a line was
/// faulty or no melody was placed at all.
pub open spec fn arrangement_of(content: Seq<char>, melodies: Map<Seq<char>, MelodyTrack>) -> Result<
    ArrangementView,
    Fault,
> {
    let (reading, fault) = reading_of(content, melodies);
    match fault {
        Some(f) => Err(f),
        None => if reading.arrangement.tracks.len() == 0 {
            Err(Fault::Instrument("Arrangement has no valid tracks"@))
        } else {
            Ok(reading.arrangement)
        },
    }
}

/// The names on the `track:` lines of a score, up to its first fault, that
/// are names of no loaded melody.
pub open spec fn missing_in(content: Seq<char>, melodies: Map<Seq<char>, MelodyTrack>) -> Seq<
    Seq<char>,
> {
    reading_of(content, melodies).0.missing
}

/// The latest end of any of the placed melodies, in millionths of a second;
/// 0 where there is none. A melody ends its length after its start, the sum
/// held to the range of `i64`.
pub open spec fn latest_end(tracks: Seq<(TrackView, Fixed, TrackOverrides)>) -> int
    decreases tracks.len(),
{
    if tracks.len() == 0 {
        0
    } else {
        let before = latest_end(tracks.drop_last());
        let end = clamp_i64(tracks.last().1.micros + tracks.last().0.length.micros);
        if end > before {
            end
        } else {
            before
        }
    }
}

/// Whether the length of an arrangement is the latest end of its melodies.
pub open spec fn spans_its_tracks(a: ArrangementView) -> bool {
    a.total_length.micros == latest_end(a.tracks)
}

proof fn lemma_with_track_spans(a: ArrangementView, t: TrackView, start: Fixed, o: TrackOverrides)
    requires
        spans_its_tracks(a),
    ensures
        spans_its_tracks(with_track(a, t, start, o)),
{
    let placed = (TrackView { tempo: placed_tempo(t.tempo, o, a.master_tempo), ..t }, start, o);
    assert(a.tracks.push(placed).drop_last() =~= a.tracks);
}

proof fn lemma_lines_span(s: Reading, lines: Seq<Seq<char>>, melodies: Map<Seq<char>, MelodyTrack>)
    requires
        spans_its_tracks(s.arrangement),
    ensures
        spans_its_tracks(bmi_lines(s, lines, melodies).0.arrangement),
    decreases lines.len(),
{
    if lines.len() > 0 {
        let line = lines[0];
        match bmi_line(s, line, melodies) {
            Ok(next) => {
                if !(line.len() == 0 || is_comment(line)) {
                    match bmi_key_of(line, bmi_keys()) {
                        Some((key, v)) => {
                            let p = fields(v, ',');
                            if key == BmiKey::Track && p.len() >= 2 {
                                match number_of(p[1]) {
                                    Some(start) => {
                                        if melodies.dom().contains(p[0]) {
                                            lemma_with_track_spans(
                                                s.arrangement,
                                                melodies[p[0]]@,
                                                start,
                                                overrides_of(TrackOverrides::none(), p.skip(2)),
                                            );
                                        }
                                    },
                                    None => {},
                                }
                            }
                        },
                        None => {},
                    }
                }
                lemma_lines_span(next, lines.drop_first(), melodies);
            },
            Err(_) => {},
        }
    }
}

/// The length of an arrangement that was read from a score is the latest end
/// of the melodies placed in it.
pub proof fn lemma_arrangement_length(content: Seq<char>, melodies: Map<Seq<char>, MelodyTrack>)
    ensures
        arrangement_of(content, melodies) matches Ok(a) ==> spans_its_tracks(a),
{
    let start = Reading { arrangement: empty_arrangement(), missing: Seq::empty() };
    assert(empty_arrangement().tracks.len() == 0);
    lemma_lines_span(start, fields(content, '\n'), melodies);
}

/// The views of a list of strings.
pub open spec fn string_views(s: Seq<String>) -> Seq<Seq<char>> {
    s.map_values(|x: String| x@)
}

impl Default for TrackOverrides {
    fn default() -> (r: Self)
        ensures
            r == TrackOverrides::none(),
    {
        TrackOverrides {
            volume: None,
            pitch: None,
            tempo: None,
            pan: None,
            reverb: None,
            delay: None,
            distortion: None,
            filter: None,
        }
    }
}

impl TrackOverrides {
    /// The overrides that change nothing.
    pub open spec fn none() -> TrackOverrides {
        TrackOverrides {
            volume: None,
            pitch: None,
            tempo: None,
            pan: None,
            reverb: None,
            delay: None,
            distortion: None,
            filter: None,
        }
    }

    /// The overrides after one `key=value`.
    fn apply(self, param: &[char]) -> (r: TrackOverrides)
        ensures
            r == override_of(self, param@),
    {
        let mut o = self;
        let (k, v) = match split_once(param, '=') {
            Some(pair) => pair,
            None => {
                return o;
            },
        };
        let key: &[char] = trim(k);
        let value: &[char] = trim(v);
        let numbers: Vec<&[char]> = split(value, ':');
        let n: usize = numbers.len();
        if reads_exactly(key, "volume") || reads_exactly(key, "vol") {
            o.volume = parse_decimal(value);
        } else if reads_exactly(key, "pitch") {
            o.pitch = parse_decimal(value);
        } else if reads_exactly(key, "tempo") {
            o.tempo = parse_decimal(value);
        } else if reads_exactly(key, "pan") {
            o.pan = parse_decimal(value);
        } else if reads_exactly(key, "filter") {
            if n >= 3 {
                o.filter = Some(
                    FilterParams {
                        filter_type: FilterType::from_name(numbers[0]),
                        cutoff: parse_decimal_or(numbers[1], Fixed { micros: 1_000_000_000 }),
                        resonance: parse_decimal_or(numbers[2], Fixed { micros: 700_000 }),
                    },
                );
            }
        } else if reads_exactly(key, "reverb") {
            if n >= 4 {
                o.reverb = Some(
                    ReverbParams {
                        room_size: parse_decimal_or(numbers[0], Fixed { micros: 500_000 }),
                        damping: parse_decimal_or(numbers[1], Fixed { micros: 500_000 }),
                        wet: parse_decimal_or(numbers[2], Fixed { micros: 300_000 }),
                        width: parse_decimal_or(numbers[3], Fixed { micros: 1_000_000 }),
                    },
                );
            }
        } else if reads_exactly(key, "delay") {
            if n >= 3 {
                o.delay = Some(
                    DelayParams {
                        time: parse_decimal_or(numbers[0], Fixed { micros: 250_000 }),
                        feedback: parse_decimal_or(numbers[1], Fixed { micros: 400_000 }),
                        wet: parse_decimal_or(numbers[2], Fixed { micros: 300_000 }),
                    },
                );
            }
        } else if reads_exactly(key, "distortion") || reads_exactly(key, "dist") {
            if n >= 3 {
                o.distortion = Some(
                    DistortionParams {
                        drive: parse_decimal_or(numbers[0], Fixed { micros: 2_000_000 }),
                        tone: parse_decimal_or(numbers[1], Fixed { micros: 700_000 }),
                        wet: parse_decimal_or(numbers[2], Fixed { micros: 500_000 }),
                    },
                );
            }
        }
        o
    }

    /// The overrides that the fields `params[from..]` of a `track:` line give.
    fn read(params: &Vec<&[char]>, from: usize) -> (r: TrackOverrides)
        requires
            from <= params@.len(),
        ensures
            r == overrides_of(TrackOverrides::none(), views(params@).skip(from as int)),
    {
        let n: usize = params.len();
        let mut out: TrackOverrides = TrackOverrides::default();
        let mut i: usize = from;
        let ghost all = views(params@);
        while i < n
            invariant
                from <= i <= n,
                n == params@.len(),
                all == views(params@),
                overrides_of(TrackOverrides::none(), all.skip(from as int)) == overrides_of(
                    out,
                    all.skip(i as int),
                ),
            decreases n - i,
        {
            proof {
                assert(all.skip(i as int).drop_first() =~= all.skip(i + 1));
                assert(all.skip(i as int)[0] == params@[i as int]@);
            }
            out = out.apply(params[i]);
            i += 1;
        }
        out
    }
}

fn bmi_key_text(k: BmiKey) -> (r: &'static str)
    ensures
        r@ == bmi_key_word(k),
{
    match k {
        BmiKey::Name => "name:",
        BmiKey::MasterTempo => "master_tempo:",
        BmiKey::FadeIn => "fade_in:",
        BmiKey::FadeOut => "fade_out:",
        BmiKey::Loop => "loop:",
        BmiKey::Track => "track:",
    }
}

/// The first key that starts `line`, with what follows it.
fn find_bmi_key<'a>(line: &'a [char]) -> (r: Option<(BmiKey, &'a [char])>)
    ensures
        match bmi_key_of(line@, bmi_keys()) {
            Some((key, rest)) => r.is_some() && r.unwrap().0 == key && r.unwrap().1@ == rest,
            None => r.is_none(),
        },
{
    let keys: Vec<BmiKey> = vec![
        BmiKey::Name,
        BmiKey::MasterTempo,
        BmiKey::FadeIn,
        BmiKey::FadeOut,
        BmiKey::Loop,
        BmiKey::Track,
    ];
    assert(keys@ =~= bmi_keys());
    let n: usize = keys.len();
    let mut i: usize = 0;
    assert(keys@.skip(0) =~= keys@);
    while i < n
        invariant
            i <= n,
            n == keys@.len(),
            keys@ == bmi_keys(),
            bmi_key_of(line@, bmi_keys()) == bmi_key_of(line@, keys@.skip(i as int)),
        decreases n - i,
    {
        let key: BmiKey = keys[i];
        assert(keys@.skip(i as int).drop_first() =~= keys@.skip(i + 1));
        match strip_prefix(line, bmi_key_text(key)) {
            Some(rest) => {
                return Some((key, rest));
            },
            None => {},
        }
        i += 1;
    }
    None
}

/// A copy of placed melodies.
fn copy_placed(v: &Vec<(MelodyTrack, Fixed, TrackOverrides)>) -> (r: Vec<
    (MelodyTrack, Fixed, TrackOverrides),
>)
    ensures
        placed_views(r@) == placed_views(v@),
{
    let n: usize = v.len();
    let mut out: Vec<(MelodyTrack, Fixed, TrackOverrides)> = Vec::new();
    let mut i: usize = 0;
    while i < n
        invariant
            i <= n,
            n == v@.len(),
            out@.len() == i,
            forall|j: int|
                0 <= j < i ==> (#[trigger] out@[j]).0@ == v@[j].0@ && out@[j].1 == v@[j].1
                    && out@[j].2 == v@[j].2,
        decreases n - i,
    {
        let t: MelodyTrack = v[i].0.clone();
        out.push((t, v[i].1, v[i].2));
        i += 1;
    }
    assert(placed_views(out@) =~= placed_views(v@));
    out
}

impl Clone for Arrangement {
    fn clone(&self) -> (r: Self)
        ensures
            r@ == self@,
    {
        Arrangement {
            name: self.name.clone(),
            tracks: copy_placed(&self.tracks),
            total_length: self.total_length,
            loop_point: self.loop_point,
            master_tempo: self.master_tempo,
            fade_in: self.fade_in,
            fade_out: self.fade_out,
        }
    }
}

impl Arrangement {
    /// The arrangement before the first line of its score is read: named
    /// `song`, no melody placed.
    pub fn new() -> (r: Arrangement)
        ensures
            r@ == empty_arrangement(),
            spans_its_tracks(r@),
    {
        let a = Arrangement {
            name: String::from_str("song"),
            tracks: Vec::new(),
            total_length: Fixed { micros: 0 },
            loop_point: None,
            master_tempo: None,
            fade_in: None,
            fade_out: None,
        };
        assert(a@.tracks =~= Seq::empty());
        a
    }

    /// Places a copy of `track` at the second `start`. The copy plays at the
    /// master tempo if there is one, else at the overriding tempo if there is
    /// one. The arrangement grows to the end of the melody if that is later
    /// than its own end.
    pub fn place(self, track: &MelodyTrack, start: Fixed, overrides: TrackOverrides) -> (r:
        Arrangement)
        ensures
            r@ == with_track(self@, track@, start, overrides),
            r.total_length.micros >= self.total_length.micros,
            r.tracks@.len() == self.tracks@.len() + 1,
            spans_its_tracks(self@) ==> spans_its_tracks(r@),
    {
        proof {
            if spans_its_tracks(self@) {
                lemma_with_track_spans(self@, track@, start, overrides);
            }
        }
        let mut a = self;
        let mut placed: MelodyTrack = track.clone();
        match overrides.tempo {
            Some(t) => {
                placed.tempo = t;
            },
            None => {},
        }
        match a.master_tempo {
            Some(m) => {
                placed.tempo = m;
            },
            None => {},
        }
        let end: Fixed = start.saturating_add(track.length);
        if end.micros > a.total_length.micros {
            a.total_length = end;
        }
        let ghost before = a.tracks@;
        let ghost entry = (placed@, start, overrides);
        a.tracks.push((placed, start, overrides));
        assert(placed_views(a.tracks@) =~= placed_views(before).push(entry));
        a
    }

    /// What a line with the key `key` and the rest `v` does.
    fn apply(
        self,
        missing: &mut Vec<String>,
        key: BmiKey,
        v: &[char],
        melodies: &Cache<MelodyTrack>,
    ) -> (r: Result<Arrangement, SynthError>)
        ensures
            match bmi_apply(
                Reading { arrangement: self@, missing: string_views(old(missing)@) },
                key,
                v@,
                melodies@,
            ) {
                Ok(s) => r.is_ok() && r.unwrap()@ == s.arrangement && string_views(final(missing)@)
                    == s.missing,
                Err(f) => r.is_err() && r.unwrap_err()@ == f && final(missing)@ == old(missing)@,
            },
    {
        let mut a = self;
        match key {
            BmiKey::Name => {
                a.name = string_of(trim(v));
                Ok(a)
            },
            BmiKey::MasterTempo => {
                a.master_tempo = parse_decimal(trim(v));
                Ok(a)
            },
            BmiKey::FadeIn => {
                a.fade_in = parse_decimal(trim(v));
                Ok(a)
            },
            BmiKey::FadeOut => {
                a.fade_out = parse_decimal(trim(v));
                Ok(a)
            },
            BmiKey::Loop => {
                let p: Vec<&[char]> = split_fields(v, ',');
                if p.len() >= 2 {
                    a.loop_point = Some(
                        LoopPoint {
                            start: parse_decimal_or(p[0], Fixed { micros: 0 }),
                            end: parse_decimal_or(p[1], a.total_length),
                        },
                    );
                }
                Ok(a)
            },
            BmiKey::Track => {
                let p: Vec<&[char]> = split_fields(v, ',');
                if p.len() < 2 {
                    return Ok(a);
                }
                let start: Fixed = match parse_decimal(p[1]) {
                    Some(x) => x,
                    None => {
                        return Err(SynthError::parse("Invalid start time"));
                    },
                };
                let overrides: TrackOverrides = TrackOverrides::read(&p, 2);
                match melodies.lookup(p[0]) {
                    Some(track) => Ok(a.place(track, start, overrides)),
                    None => {
                        let ghost before = missing@;
                        let name: String = string_of(p[0]);
                        missing.push(name);
                        assert(string_views(missing@) =~= string_views(before).push(p@[0]@));
                        Ok(a)
                    },
                }
            },
        }
    }

    /// What one trimmed line of a score does.
    fn apply_line(self, missing: &mut Vec<String>, line: &[char], melodies: &Cache<MelodyTrack>) -> (r:
        Result<Arrangement, SynthError>)
        ensures
            match bmi_line(
                Reading { arrangement: self@, missing: string_views(old(missing)@) },
                line@,
                melodies@,
            ) {
                Ok(s) => r.is_ok() && r.unwrap()@ == s.arrangement && string_views(final(missing)@)
                    == s.missing,
                Err(f) => r.is_err() && r.unwrap_err()@ == f && final(missing)@ == old(missing)@,
            },
    {
        if line.len() == 0 || starts_comment(line) {
            return Ok(self);
        }
        match find_bmi_key(line) {
            Some((key, v)) => self.apply(missing, key, v, melodies),
            None => Ok(self),
        }
    }

    /// Reads an arrangement score. `mel_cache` holds the melodies that the
    /// score may name. The first part of the result is the arrangement that
    /// the score describes, or the first fault in it: a start time that is no
    /// number, or no melody placed at all. The second part holds the names on
    /// `track:` lines, up to the first fault, that are names of no loaded
    /// melody: those lines placed nothing.
    pub fn read_bmi(content: &str, mel_cache: &Cache<MelodyTrack>) -> (r: (
        Result<Arrangement, SynthError>,
        Vec<String>,
    ))
        ensures
            match arrangement_of(content@, mel_cache@) {
                Ok(a) => r.0.is_ok() && r.0.unwrap()@ == a && a.tracks.len() > 0
                    && spans_its_tracks(a),
                Err(f) => r.0.is_err() && r.0.unwrap_err()@ == f,
            },
            string_views(r.1@) == missing_in(content@, mel_cache@),
    {
        proof {
            lemma_arrangement_length(content@, mel_cache@);
        }
        let chars: Vec<char> = chars_of(content);
        let lines: Vec<&[char]> = split_fields(chars.as_slice(), '\n');
        let n: usize = lines.len();
        let mut arrangement: Arrangement = Arrangement::new();
        let mut missing: Vec<String> = Vec::new();
        let mut i: usize = 0;
        let ghost all = views(lines@);
        assert(all.skip(0) =~= all);
        assert(string_views(missing@) =~= Seq::empty());
        while i < n
            invariant
                i <= n,
                n == lines@.len(),
                all == views(lines@),
                all == fields(content@, '\n'),
                reading_of(content@, mel_cache@) == bmi_lines(
                    Reading { arrangement: arrangement@, missing: string_views(missing@) },
                    all.skip(i as int),
                    mel_cache@,
                ),
            decreases n - i,
        {
            proof {
                assert(all.skip(i as int).drop_first() =~= all.skip(i + 1));
                assert(all.skip(i as int)[0] == lines@[i as int]@);
            }
            match arrangement.apply_line(&mut missing, lines[i], mel_cache) {
                Ok(a) => {
                    arrangement = a;
                },
                Err(e) => {
                    return (Err(e), missing);
                },
            }
            i += 1;
        }
        if arrangement.tracks.len() == 0 {
            (
                Err(
                    SynthError::InvalidInstrument(
                        String::from_str("Arrangement has no valid tracks"),
                    ),
                ),
                missing,
            )
        } else {
            (Ok(arrangement), missing)
        }
    }

    /// Reads an arrangement score: the arrangement that it describes, or the
    /// first fault in it. A `track:` line that names no loaded melody places
    /// nothing; an arrangement without any placed melody is a fault.
    pub fn from_bmi(content: &str, mel_cache: &Cache<MelodyTrack>) -> (r: Result<
        Arrangement,
        SynthError,
    >)
        ensures
            match arrangement_of(content@, mel_cache@) {
                Ok(a) => r.is_ok() && r.unwrap()@ == a && a.tracks.len() > 0 && spans_its_tracks(a),
                Err(f) => r.is_err() && r.unwrap_err()@ == f,
            },
    {
        Arrangement::read_bmi(content, mel_cache).0
    }
}

} // verus!
