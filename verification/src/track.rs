//! Melodies and the melody score format.
//!
//! A melody score is read line by line. Each line is trimmed; an empty line
//! and a line that starts with `//` are passed over. Any other line is held
//! against the keys in a fixed order (`name:`, `loop:`, `time_sig:`, ...): the
//! first key that starts the line decides what the rest of the line means. A
//! line that starts with no key is passed over.

use vstd::prelude::*;
use vstd::string::StringExecFns;
use crate::cache::Cache;
use crate::effects::{
    filter_named,
    DelayParams,
    DistortionParams,
    EffectsChain,
    FilterParams,
    FilterType,
    ReverbParams,
};
use crate::error::{Fault, SynthError};
use crate::fixed::{
    clamp_i64,
    number_of,
    number_or,
    parse_decimal,
    parse_decimal_or,
    parse_u32,
    parsed_u32,
    Fixed,
};
use crate::instrument::{
    beats_of,
    copy_elements,
    default_instrument,
    element_views,
    Chord,
    ChordView,
    ElementView,
    Instrument,
    InstrumentSource,
    InstrumentView,
    Note,
    SampleData,
    SequenceElement,
    SourceView,
};
use crate::text::{
    before_comment,
    chars_of,
    fields,
    is_comment,
    reads_exactly,
    split_fields,
    split_once,
    split_pair,
    starts_comment,
    string_of,
    strip_comment,
    strip_prefix,
    trim,
    trimmed,
    views,
    without_prefix,
};
use crate::utils::{note_pitch, parse_note_chars};
use crate::waveform::{waveform_named, WaveformType};

verus! {

/// Where a loop starts and ends, in seconds.
#[derive(Clone, Copy, Debug, PartialEq, Eq, Structural)]
pub struct LoopPoint {
    pub start: Fixed,
    pub end: Fixed,
}

/// A melody: one instrument and the elements that it plays, one after the
/// other, at `tempo` beats per minute. `length` is the sum of the elements'
/// lengths in beats.
#[derive(Debug)]
pub struct MelodyTrack {
    pub name: String,
    pub instrument: Instrument,
    pub sequence: Vec<SequenceElement>,
    pub tempo: Fixed,
    pub length: Fixed,
    pub loop_point: Option<LoopPoint>,
    pub time_signature: (u32, u32),
    /// From 0, straight, to 1. Kept with the melody; the timeline does not use it.
    pub swing: Fixed,
}

pub struct TrackView {
    pub name: Seq<char>,
    pub instrument: InstrumentView,
    pub sequence: Seq<ElementView>,
    pub tempo: Fixed,
    pub length: Fixed,
    pub loop_point: Option<LoopPoint>,
    pub time_signature: (u32, u32),
    pub swing: Fixed,
}

impl View for MelodyTrack {
    type V = TrackView;

    open spec fn view(&self) -> TrackView {
        TrackView {
            name: self.name@,
            instrument: self.instrument@,
            sequence: element_views(self.sequence@),
            tempo: self.tempo,
            length: self.length,
            loop_point: self.loop_point,
            time_signature: self.time_signature,
            swing: self.swing,
        }
    }
}

/// The keys of a melody score, in the order in which a line is held against
/// them.
#[derive(Clone, Copy, Debug, PartialEq, Eq, Structural)]
pub enum MelKey {
    Name,
    Loop,
    TimeSig,
    Sample,
    Waveform,
    Note,
    Chord,
    Rest,
    Filter,
    Reverb,
    Delay,
    Distortion,
    Tempo,
    Volume,
    Attack,
    Decay,
    Sustain,
    Release,
    Pitch,
    Pan,
    Detune,
    Swing,
}

/// The word that a key is written as.
pub open spec fn key_word(k: MelKey) -> Seq<char> {
    match k {
        MelKey::Name => "name:"@,
        MelKey::Loop => "loop:"@,
        MelKey::TimeSig => "time_sig:"@,
        MelKey::Sample => "sample:"@,
        MelKey::Waveform => "waveform:"@,
        MelKey::Note => "note:"@,
        MelKey::Chord => "chord:"@,
        MelKey::Rest => "rest:"@,
        MelKey::Filter => "filter:"@,
        MelKey::Reverb => "reverb:"@,
        MelKey::Delay => "delay:"@,
        MelKey::Distortion => "distortion:"@,
        MelKey::Tempo => "tempo:"@,
        MelKey::Volume => "volume:"@,
        MelKey::Attack => "attack:"@,
        MelKey::Decay => "decay:"@,
        MelKey::Sustain => "sustain:"@,
        MelKey::Release => "release:"@,
        MelKey::Pitch => "pitch:"@,
        MelKey::Pan => "pan:"@,
        MelKey::Detune => "detune:"@,
        MelKey::Swing => "swing:"@,
    }
}

pub open spec fn mel_keys() -> Seq<MelKey> {
    seq![
        MelKey::Name,
        MelKey::Loop,
        MelKey::TimeSig,
        MelKey::Sample,
        MelKey::Waveform,
        MelKey::Note,
        MelKey::Chord,
        MelKey::Rest,
        MelKey::Filter,
        MelKey::Reverb,
        MelKey::Delay,
        MelKey::Distortion,
        MelKey::Tempo,
        MelKey::Volume,
        MelKey::Attack,
        MelKey::Decay,
        MelKey::Sustain,
        MelKey::Release,
        MelKey::Pitch,
        MelKey::Pan,
        MelKey::Detune,
        MelKey::Swing,
    ]
}

/// The first of `keys` whose word starts `line`, with what follows the word.
pub open spec fn key_of(line: Seq<char>, keys: Seq<MelKey>) -> Option<(MelKey, Seq<char>)>
    decreases keys.len(),
{
    if keys.len() == 0 {
        None
    } else {
        match without_prefix(line, key_word(keys[0])) {
            Some(rest) => Some((keys[0], rest)),
            None => key_of(line, keys.drop_first()),
        }
    }
}

/// The melody before the first line of its score is read.
pub open spec fn empty_track() -> TrackView {
    TrackView {
        name: "melody"@,
        instrument: default_instrument(),
        sequence: Seq::empty(),
        tempo: Fixed { micros: 120_000_000 },
        length: Fixed { micros: 0 },
        loop_point: None,
        time_signature: (4u32, 4u32),
        swing: Fixed { micros: 0 },
    }
}

/// The track with one more element at its end.
pub open spec fn appended(t: TrackView, e: ElementView) -> TrackView {
    TrackView {
        sequence: t.sequence.push(e),
        length: Fixed { micros: clamp_i64(t.length.micros + beats_of(e).micros) as i64 },
        ..t
    }
}

/// The track with other effects.
pub open spec fn with_effects(t: TrackView, effects: EffectsChain) -> TrackView {
    TrackView { instrument: InstrumentView { effects, ..t.instrument }, ..t }
}

/// The track with another source of sound.
pub open spec fn with_source(t: TrackView, source: SourceView) -> TrackView {
    TrackView { instrument: InstrumentView { source, ..t.instrument }, ..t }
}

/// What an option after the velocity of a note does to the note: `pan=` sets
/// the pan, or clears it where the value is no number; `slide=` sets the pitch
/// to slide to; anything else does nothing.
pub open spec fn note_option(note: Note, param: Seq<char>) -> Result<Note, Fault> {
    match split_pair(param, '=') {
        None => Ok(note),
        Some((key, value)) => {
            if trimmed(key) == "pan"@ {
                Ok(Note { pan: number_of(trimmed(value)), ..note })
            } else if trimmed(key) == "slide"@ {
                match note_pitch(trimmed(value)) {
                    Ok(p) => Ok(Note { slide_to: Some(p), ..note }),
                    Err(f) => Err(f),
                }
            } else {
                Ok(note)
            }
        },
    }
}

/// The note after all of `params`, taken in order; the first fault ends it.
pub open spec fn note_options(note: Note, params: Seq<Seq<char>>) -> Result<Note, Fault>
    decreases params.len(),
{
    if params.len() == 0 {
        Ok(note)
    } else {
        match note_option(note, params[0]) {
            Ok(n) => note_options(n, params.drop_first()),
            Err(f) => Err(f),
        }
    }
}

/// The velocity in the third field of a note or chord: what stands before a
/// `//`, trimmed.
pub open spec fn velocity_text(field: Seq<char>) -> Seq<char> {
    trimmed(before_comment(field))
}

/// The note that the fields of a `note:` line give, three fields or more.
pub open spec fn note_of(p: Seq<Seq<char>>) -> Result<Note, Fault> {
    match note_pitch(p[0]) {
        Err(f) => Err(f),
        Ok(pitch) => match number_of(p[1]) {
            None => Err(Fault::Parse("Invalid Duration"@)),
            Some(duration) => match number_of(velocity_text(p[2])) {
                None => Err(Fault::Parse("Invalid Velocity"@)),
                Some(velocity) => note_options(
                    Note { pitch, duration, velocity, pan: None, slide_to: None },
                    p.skip(3),
                ),
            },
        },
    }
}

/// The pitches of the note names `names`, if each of them is one.
pub open spec fn pitches_of(names: Seq<Seq<char>>) -> Result<Seq<Fixed>, Fault>
    decreases names.len(),
{
    if names.len() == 0 {
        Ok(Seq::empty())
    } else {
        match pitches_of(names.drop_last()) {
            Err(f) => Err(f),
            Ok(ps) => match note_pitch(names.last()) {
                Ok(p) => Ok(ps.push(p)),
                Err(f) => Err(f),
            },
        }
    }
}

/// The chord that the fields of a `chord:` line give, three fields or more.
/// The first field holds the note names with `+` between them.
pub open spec fn chord_of(p: Seq<Seq<char>>) -> Result<ChordView, Fault> {
    match number_of(p[1]) {
        None => Err(Fault::Parse("Invalid Duration"@)),
        Some(duration) => match number_of(velocity_text(p[2])) {
            None => Err(Fault::Parse("Invalid Velocity"@)),
            Some(velocity) => match pitches_of(fields(p[0], '+')) {
                Err(f) => Err(f),
                Ok(pitches) => Ok(ChordView { pitches, duration, velocity }),
            },
        },
    }
}

/// An unsigned number of a time signature, 4 where the text is none.
pub open spec fn count_or_four(text: Seq<char>) -> u32 {
    match parsed_u32(text) {
        Some(v) => v,
        None => 4u32,
    }
}

/// The track with the number `v` under one of the keys that hold one number.
pub open spec fn with_number(t: TrackView, key: MelKey, v: Fixed) -> TrackView {
    match key {
        MelKey::Tempo => TrackView { tempo: v, ..t },
        MelKey::Volume => TrackView { instrument: InstrumentView { volume: v, ..t.instrument }, ..t },
        MelKey::Attack => TrackView { instrument: InstrumentView { attack: v, ..t.instrument }, ..t },
        MelKey::Decay => TrackView { instrument: InstrumentView { decay: v, ..t.instrument }, ..t },
        MelKey::Sustain => TrackView {
            instrument: InstrumentView { sustain: v, ..t.instrument },
            ..t
        },
        MelKey::Release => TrackView {
            instrument: InstrumentView { release: v, ..t.instrument },
            ..t
        },
        MelKey::Pitch => TrackView { instrument: InstrumentView { pitch: v, ..t.instrument }, ..t },
        MelKey::Pan => TrackView { instrument: InstrumentView { pan: v, ..t.instrument }, ..t },
        MelKey::Detune => TrackView { instrument: InstrumentView { detune: v, ..t.instrument }, ..t },
        MelKey::Swing => TrackView { swing: v, ..t },
        _ => t,
    }
}

/// The filter that the fields of a `filter` give, three fields or more.
pub open spec fn filter_of(p: Seq<Seq<char>>) -> FilterParams {
    FilterParams {
        filter_type: filter_named(p[0]),
        cutoff: number_or(p[1], Fixed { micros: 1_000_000_000 }),
        resonance: number_or(p[2], Fixed { micros: 700_000 }),
    }
}

/// The reverb that four fields or more give.
pub open spec fn reverb_of(p: Seq<Seq<char>>) -> ReverbParams {
    ReverbParams {
        room_size: number_or(p[0], Fixed { micros: 500_000 }),
        damping: number_or(p[1], Fixed { micros: 500_000 }),
        wet: number_or(p[2], Fixed { micros: 300_000 }),
        width: number_or(p[3], Fixed { micros: 1_000_000 }),
    }
}

/// The delay that three fields or more give.
pub open spec fn delay_of(p: Seq<Seq<char>>) -> DelayParams {
    DelayParams {
        time: number_or(p[0], Fixed { micros: 250_000 }),
        feedback: number_or(p[1], Fixed { micros: 400_000 }),
        wet: number_or(p[2], Fixed { micros: 300_000 }),
    }
}

/// The distortion that three fields or more give.
pub open spec fn distortion_of(p: Seq<Seq<char>>) -> DistortionParams {
    DistortionParams {
        drive: number_or(p[0], Fixed { micros: 2_000_000 }),
        tone: number_or(p[1], Fixed { micros: 700_000 }),
        wet: number_or(p[2], Fixed { micros: 500_000 }),
    }
}

/// What a line with the key `key` and the rest `v` does to a track. A line
/// with too few fields does nothing; a field that must be a number and is
/// none is a fault, but for the numbers of effects, loop points and time
/// signatures, which then take their usual values.
pub open spec fn mel_apply(
    t: TrackView,
    key: MelKey,
    v: Seq<char>,
    samples: Map<Seq<char>, SampleData>,
) -> Result<TrackView, Fault> {
    let p = fields(v, ',');
    match key {
        MelKey::Name => Ok(TrackView { name: trimmed(v), ..t }),
        MelKey::Loop => Ok(
            if p.len() >= 2 {
                TrackView {
                    loop_point: Some(
                        LoopPoint {
                            start: number_or(p[0], Fixed { micros: 0 }),
                            end: number_or(p[1], t.length),
                        },
                    ),
                    ..t
                }
            } else {
                t
            },
        ),
        MelKey::TimeSig => {
            let q = fields(v, '/');
            Ok(
                if q.len() >= 2 {
                    TrackView { time_signature: (count_or_four(q[0]), count_or_four(q[1])), ..t }
                } else {
                    t
                },
            )
        },
        MelKey::Sample => if samples.dom().contains(trimmed(v)) {
            Ok(with_source(t, SourceView::Sample(samples[trimmed(v)]@)))
        } else {
            Err(Fault::Instrument("Sample not found: "@ + trimmed(v)))
        },
        MelKey::Waveform => match waveform_named(trimmed(v)) {
            Some(w) => Ok(with_source(t, SourceView::Synthesized(w))),
            None => Err(Fault::Parse("Unknown Waveform"@)),
        },
        MelKey::Note => if p.len() >= 3 {
            match note_of(p) {
                Ok(n) => Ok(appended(t, ElementView::Note(n))),
                Err(f) => Err(f),
            }
        } else {
            Ok(t)
        },
        MelKey::Chord => if p.len() >= 3 {
            match chord_of(p) {
                Ok(c) => Ok(appended(t, ElementView::Chord(c))),
                Err(f) => Err(f),
            }
        } else {
            Ok(t)
        },
        MelKey::Rest => match number_of(trimmed(v)) {
            Some(d) => Ok(appended(t, ElementView::Rest(d))),
            None => Err(Fault::Parse("Invalid rest duration"@)),
        },
        MelKey::Filter => Ok(
            if p.len() >= 3 {
                with_effects(
                    t,
                    EffectsChain { filter: Some(filter_of(p)), ..t.instrument.effects },
                )
            } else {
                t
            },
        ),
        MelKey::Reverb => Ok(
            if p.len() >= 4 {
                with_effects(
                    t,
                    EffectsChain { reverb: Some(reverb_of(p)), ..t.instrument.effects },
                )
            } else {
                t
            },
        ),
        MelKey::Delay => Ok(
            if p.len() >= 3 {
                with_effects(t, EffectsChain { delay: Some(delay_of(p)), ..t.instrument.effects })
            } else {
                t
            },
        ),
        MelKey::Distortion => Ok(
            if p.len() >= 3 {
                with_effects(
                    t,
                    EffectsChain { distortion: Some(distortion_of(p)), ..t.instrument.effects },
                )
            } else {
                t
            },
        ),
        _ => match number_of(trimmed(v)) {
            Some(x) => Ok(with_number(t, key, x)),
            None => Err(Fault::Parse("Invalid "@ + key_word(key))),
        },
    }
}

/// What one trimmed line of a score does to a track.
pub open spec fn mel_line(t: TrackView, line: Seq<char>, samples: Map<Seq<char>, SampleData>) -> Result<
    TrackView,
    Fault,
> {
    if line.len() == 0 || is_comment(line) {
        Ok(t)
    } else {
        match key_of(line, mel_keys()) {
            Some((key, v)) => mel_apply(t, key, v, samples),
            None => Ok(t),
        }
    }
}

/// The track after all of `lines`, taken in order; the first fault ends it.
pub open spec fn mel_lines(
    t: TrackView,
    lines: Seq<Seq<char>>,
    samples: Map<Seq<char>, SampleData>,
) -> Result<TrackView, Fault>
    decreases lines.len(),
{
    if lines.len() == 0 {
        Ok(t)
    } else {
        match mel_line(t, lines[0], samples) {
            Ok(next) => mel_lines(next, lines.drop_first(), samples),
            Err(f) => Err(f),
        }
    }
}

/// The melody that a score describes, or the first fault in it.
pub open spec fn melody_of(content: Seq<char>, samples: Map<Seq<char>, SampleData>) -> Result<
    TrackView,
    Fault,
> {
    mel_lines(empty_track(), fields(content, '\n'), samples)
}

/// The beats of a sequence of elements, added up in order; the sum is held
/// to the range of `i64` millionths at each step.
pub open spec fn total_beats(seq: Seq<ElementView>) -> int
    decreases seq.len(),
{
    if seq.len() == 0 {
        0
    } else {
        clamp_i64(total_beats(seq.drop_last()) + beats_of(seq.last()).micros)
    }
}

/// Whether the length of a melody is the sum of the lengths of its elements.
pub open spec fn length_adds_up(t: TrackView) -> bool {
    t.length.micros == total_beats(t.sequence)
}

proof fn lemma_appended_adds_up(t: TrackView, e: ElementView)
    requires
        length_adds_up(t),
    ensures
        length_adds_up(appended(t, e)),
{
    assert(t.sequence.push(e).drop_last() =~= t.sequence);
}

proof fn lemma_lines_add_up(t: TrackView, lines: Seq<Seq<char>>, samples: Map<Seq<char>, SampleData>)
    requires
        length_adds_up(t),
    ensures
        mel_lines(t, lines, samples) matches Ok(read) ==> length_adds_up(read),
    decreases lines.len(),
{
    if lines.len() > 0 {
        let line = lines[0];
        match mel_line(t, line, samples) {
            Ok(next) => {
                if !(line.len() == 0 || is_comment(line)) {
                    match key_of(line, mel_keys()) {
                        Some((key, v)) => {
                            let p = fields(v, ',');
                            match key {
                                MelKey::Note => {
                                    match note_of(p) {
                                        Ok(n) => {
                                            lemma_appended_adds_up(t, ElementView::Note(n));
                                        },
                                        Err(_) => {},
                                    }
                                },
                                MelKey::Chord => {
                                    match chord_of(p) {
                                        Ok(c) => {
                                            lemma_appended_adds_up(t, ElementView::Chord(c));
                                        },
                                        Err(_) => {},
                                    }
                                },
                                MelKey::Rest => {
                                    match number_of(trimmed(v)) {
                                        Some(d) => {
                                            lemma_appended_adds_up(t, ElementView::Rest(d));
                                        },
                                        None => {},
                                    }
                                },
                                _ => {},
                            }
                        },
                        None => {},
                    }
                }
                lemma_lines_add_up(next, lines.drop_first(), samples);
            },
            Err(_) => {},
        }
    }
}

/// The length of a melody that was read from a score is the sum of the
/// lengths of its elements.
pub proof fn lemma_melody_length(content: Seq<char>, samples: Map<Seq<char>, SampleData>)
    ensures
        melody_of(content, samples) matches Ok(t) ==> length_adds_up(t),
{
    assert(empty_track().sequence.len() == 0);
    lemma_lines_add_up(empty_track(), fields(content, '\n'), samples);
}

impl Clone for MelodyTrack {
    fn clone(&self) -> (r: Self)
        ensures
            r@ == self@,
    {
        MelodyTrack {
            name: self.name.clone(),
            instrument: self.instrument.clone(),
            sequence: copy_elements(&self.sequence),
            tempo: self.tempo,
            length: self.length,
            loop_point: self.loop_point,
            time_signature: self.time_signature,
            swing: self.swing,
        }
    }
}

fn key_text(k: MelKey) -> (r: &'static str)
    ensures
        r@ == key_word(k),
{
    match k {
        MelKey::Name => "name:",
        MelKey::Loop => "loop:",
        MelKey::TimeSig => "time_sig:",
        MelKey::Sample => "sample:",
        MelKey::Waveform => "waveform:",
        MelKey::Note => "note:",
        MelKey::Chord => "chord:",
        MelKey::Rest => "rest:",
        MelKey::Filter => "filter:",
        MelKey::Reverb => "reverb:",
        MelKey::Delay => "delay:",
        MelKey::Distortion => "distortion:",
        MelKey::Tempo => "tempo:",
        MelKey::Volume => "volume:",
        MelKey::Attack => "attack:",
        MelKey::Decay => "decay:",
        MelKey::Sustain => "sustain:",
        MelKey::Release => "release:",
        MelKey::Pitch => "pitch:",
        MelKey::Pan => "pan:",
        MelKey::Detune => "detune:",
        MelKey::Swing => "swing:",
    }
}

fn all_keys() -> (r: Vec<MelKey>)
    ensures
        r@ == mel_keys(),
{
    let keys = vec![
        MelKey::Name,
        MelKey::Loop,
        MelKey::TimeSig,
        MelKey::Sample,
        MelKey::Waveform,
        MelKey::Note,
        MelKey::Chord,
        MelKey::Rest,
        MelKey::Filter,
        MelKey::Reverb,
        MelKey::Delay,
        MelKey::Distortion,
        MelKey::Tempo,
        MelKey::Volume,
        MelKey::Attack,
        MelKey::Decay,
        MelKey::Sustain,
        MelKey::Release,
        MelKey::Pitch,
        MelKey::Pan,
        MelKey::Detune,
        MelKey::Swing,
    ];
    assert(keys@ =~= mel_keys());
    keys
}

/// The first key that starts `line`, with what follows it.
fn find_key<'a>(line: &'a [char]) -> (r: Option<(MelKey, &'a [char])>)
    ensures
        match key_of(line@, mel_keys()) {
            Some((key, rest)) => r.is_some() && r.unwrap().0 == key && r.unwrap().1@ == rest,
            None => r.is_none(),
        },
{
    let keys: Vec<MelKey> = all_keys();
    let n: usize = keys.len();
    let mut i: usize = 0;
    assert(keys@.skip(0) =~= keys@);
    while i < n
        invariant
            i <= n,
            n == keys@.len(),
            keys@ == mel_keys(),
            key_of(line@, mel_keys()) == key_of(line@, keys@.skip(i as int)),
        decreases n - i,
    {
        let key: MelKey = keys[i];
        assert(keys@.skip(i as int).drop_first() =~= keys@.skip(i + 1));
        match strip_prefix(line, key_text(key)) {
            Some(rest) => {
                return Some((key, rest));
            },
            None => {},
        }
        i += 1;
    }
    None
}

/// The note after the options `params[from..]`.
fn apply_note_options(note: Note, params: &Vec<&[char]>, from: usize) -> (r: Result<
    Note,
    SynthError,
>)
    requires
        from <= params@.len(),
    ensures
        match note_options(note, views(params@).skip(from as int)) {
            Ok(n) => r.is_ok() && r.unwrap() == n,
            Err(f) => r.is_err() && r.unwrap_err()@ == f,
        },
{
    let n: usize = params.len();
    let mut out: Note = note;
    let mut i: usize = from;
    let ghost all = views(params@);
    while i < n
        invariant
            from <= i <= n,
            n == params@.len(),
            all == views(params@),
            note_options(note, all.skip(from as int)) == note_options(out, all.skip(i as int)),
        decreases n - i,
    {
        let param: &[char] = params[i];
        proof {
            assert(all.skip(i as int).drop_first() =~= all.skip(i + 1));
            assert(all.skip(i as int)[0] == param@);
        }
        match split_once(param, '=') {
            None => {},
            Some((key, value)) => {
                let k: &[char] = trim(key);
                if reads_exactly(k, "pan") {
                    out.pan = parse_decimal(trim(value));
                } else if reads_exactly(k, "slide") {
                    match parse_note_chars(trim(value)) {
                        Ok(p) => {
                            out.slide_to = Some(p);
                        },
                        Err(e) => {
                            return Err(e);
                        },
                    }
                }
            },
        }
        i += 1;
    }
    Ok(out)
}

/// The note of a `note:` line with the fields `p`.
fn read_note(p: &Vec<&[char]>) -> (r: Result<Note, SynthError>)
    requires
        p@.len() >= 3,
    ensures
        match note_of(views(p@)) {
            Ok(n) => r.is_ok() && r.unwrap() == n,
            Err(f) => r.is_err() && r.unwrap_err()@ == f,
        },
{
    let pitch: Fixed = match parse_note_chars(p[0]) {
        Ok(v) => v,
        Err(e) => {
            return Err(e);
        },
    };
    let duration: Fixed = match parse_decimal(p[1]) {
        Some(v) => v,
        None => {
            return Err(SynthError::parse("Invalid Duration"));
        },
    };
    let velocity: Fixed = match parse_decimal(trim(strip_comment(p[2]))) {
        Some(v) => v,
        None => {
            return Err(SynthError::parse("Invalid Velocity"));
        },
    };
    apply_note_options(Note { pitch, duration, velocity, pan: None, slide_to: None }, p, 3)
}

/// The pitches of the note names `names`.
fn read_pitches(names: &Vec<&[char]>) -> (r: Result<Vec<Fixed>, SynthError>)
    ensures
        match pitches_of(views(names@)) {
            Ok(ps) => r.is_ok() && r.unwrap()@ == ps,
            Err(f) => r.is_err() && r.unwrap_err()@ == f,
        },
{
    let n: usize = names.len();
    let mut out: Vec<Fixed> = Vec::new();
    let mut i: usize = 0;
    let ghost all = views(names@);
    while i < n
        invariant
            i <= n,
            n == names@.len(),
            all == views(names@),
            pitches_of(all.take(i as int)) == Ok::<Seq<Fixed>, Fault>(out@),
        decreases n - i,
    {
        proof {
            assert(all.take(i + 1).drop_last() =~= all.take(i as int));
            assert(all.take(i + 1).last() == names@[i as int]@);
        }
        match parse_note_chars(names[i]) {
            Ok(p) => {
                out.push(p);
            },
            Err(e) => {
                proof {
                    lemma_pitches_fail(all, i as int);
                }
                return Err(e);
            },
        }
        i += 1;
    }
    assert(all.take(n as int) =~= all);
    Ok(out)
}

/// Where one name is no note, the names as a whole give that fault.
proof fn lemma_pitches_fail(names: Seq<Seq<char>>, i: int)
    requires
        0 <= i < names.len(),
        note_pitch(names[i]).is_err(),
    ensures
        pitches_of(names) == Err::<Seq<Fixed>, Fault>(Fault::Parse("Invalid note"@)),
    decreases names.len(),
{
    if i == names.len() - 1 {
        let front = names.drop_last();
        if front.len() > 0 && pitches_of(front).is_err() {
            lemma_pitches_fault(front);
        }
    } else {
        assert(names.drop_last()[i] == names[i]);
        lemma_pitches_fail(names.drop_last(), i);
    }
}

/// The only fault of a list of note names is that of a bad note.
proof fn lemma_pitches_fault(names: Seq<Seq<char>>)
    requires
        pitches_of(names).is_err(),
    ensures
        pitches_of(names) == Err::<Seq<Fixed>, Fault>(Fault::Parse("Invalid note"@)),
    decreases names.len(),
{
    if names.len() > 0 {
        if pitches_of(names.drop_last()).is_err() {
            lemma_pitches_fault(names.drop_last());
        }
    }
}

/// The chord of a `chord:` line with the fields `p`.
fn read_chord(p: &Vec<&[char]>) -> (r: Result<Chord, SynthError>)
    requires
        p@.len() >= 3,
    ensures
        match chord_of(views(p@)) {
            Ok(c) => r.is_ok() && r.unwrap()@ == c,
            Err(f) => r.is_err() && r.unwrap_err()@ == f,
        },
{
    let duration: Fixed = match parse_decimal(p[1]) {
        Some(v) => v,
        None => {
            return Err(SynthError::parse("Invalid Duration"));
        },
    };
    let velocity: Fixed = match parse_decimal(trim(strip_comment(p[2]))) {
        Some(v) => v,
        None => {
            return Err(SynthError::parse("Invalid Velocity"));
        },
    };
    let names: Vec<&[char]> = split_fields(p[0], '+');
    match read_pitches(&names) {
        Ok(pitches) => Ok(Chord { pitches, duration, velocity }),
        Err(e) => Err(e),
    }
}

impl MelodyTrack {
    /// The melody before the first line of its score is read: named
    /// `melody`, a sine wave at 120 beats per minute, nothing to play.
    pub fn new() -> (r: MelodyTrack)
        ensures
            r@ == empty_track(),
            length_adds_up(r@),
    {
        let t = MelodyTrack {
            name: String::from_str("melody"),
            instrument: Instrument::default(),
            sequence: Vec::new(),
            tempo: Fixed { micros: 120_000_000 },
            length: Fixed { micros: 0 },
            loop_point: None,
            time_signature: (4, 4),
            swing: Fixed { micros: 0 },
        };
        assert(t@.sequence =~= Seq::empty());
        t
    }

    /// Puts `e` at the end of the melody.
    pub fn push(self, e: SequenceElement) -> (r: MelodyTrack)
        ensures
            r@ == appended(self@, e@),
            length_adds_up(self@) ==> length_adds_up(r@),
    {
        proof {
            if length_adds_up(self@) {
                lemma_appended_adds_up(self@, e@);
            }
        }
        let mut t = self;
        let ghost before = t.sequence@;
        t.length = t.length.saturating_add(e.beats());
        t.sequence.push(e);
        assert(element_views(t.sequence@) =~= element_views(before).push(e@));
        t
    }

    fn set_number(self, key: MelKey, v: Fixed) -> (r: MelodyTrack)
        ensures
            r@ == with_number(self@, key, v),
    {
        let mut t = self;
        match key {
            MelKey::Tempo => {
                t.tempo = v;
            },
            MelKey::Volume => {
                t.instrument.volume = v;
            },
            MelKey::Attack => {
                t.instrument.attack = v;
            },
            MelKey::Decay => {
                t.instrument.decay = v;
            },
            MelKey::Sustain => {
                t.instrument.sustain = v;
            },
            MelKey::Release => {
                t.instrument.release = v;
            },
            MelKey::Pitch => {
                t.instrument.pitch = v;
            },
            MelKey::Pan => {
                t.instrument.pan = v;
            },
            MelKey::Detune => {
                t.instrument.detune = v;
            },
            MelKey::Swing => {
                t.swing = v;
            },
            _ => {},
        }
        t
    }

    fn apply_effect(self, key: MelKey, p: &Vec<&[char]>) -> (r: MelodyTrack)
        requires
            key == MelKey::Filter || key == MelKey::Reverb || key == MelKey::Delay || key
                == MelKey::Distortion,
        ensures
            forall|v: Seq<char>, samples: Map<Seq<char>, SampleData>|
                fields(v, ',') == views(p@) ==> #[trigger] mel_apply(self@, key, v, samples) == Ok::<
                    TrackView,
                    Fault,
                >(r@),
    {
        let mut t = self;
        let n: usize = p.len();
        match key {
            MelKey::Filter => {
                if n >= 3 {
                    t.instrument.effects.filter = Some(
                        FilterParams {
                            filter_type: FilterType::from_name(p[0]),
                            cutoff: parse_decimal_or(p[1], Fixed { micros: 1_000_000_000 }),
                            resonance: parse_decimal_or(p[2], Fixed { micros: 700_000 }),
                        },
                    );
                }
            },
            MelKey::Reverb => {
                if n >= 4 {
                    t.instrument.effects.reverb = Some(
                        ReverbParams {
                            room_size: parse_decimal_or(p[0], Fixed { micros: 500_000 }),
                            damping: parse_decimal_or(p[1], Fixed { micros: 500_000 }),
                            wet: parse_decimal_or(p[2], Fixed { micros: 300_000 }),
                            width: parse_decimal_or(p[3], Fixed { micros: 1_000_000 }),
                        },
                    );
                }
            },
            MelKey::Delay => {
                if n >= 3 {
                    t.instrument.effects.delay = Some(
                        DelayParams {
                            time: parse_decimal_or(p[0], Fixed { micros: 250_000 }),
                            feedback: parse_decimal_or(p[1], Fixed { micros: 400_000 }),
                            wet: parse_decimal_or(p[2], Fixed { micros: 300_000 }),
                        },
                    );
                }
            },
            _ => {
                if n >= 3 {
                    t.instrument.effects.distortion = Some(
                        DistortionParams {
                            drive: parse_decimal_or(p[0], Fixed { micros: 2_000_000 }),
                            tone: parse_decimal_or(p[1], Fixed { micros: 700_000 }),
                            wet: parse_decimal_or(p[2], Fixed { micros: 500_000 }),
                        },
                    );
                }
            },
        }
        t
    }

    /// What a line with the key `key` and the rest `v` does to the melody.
    fn apply(self, key: MelKey, v: &[char], samples: &Cache<SampleData>) -> (r: Result<
        MelodyTrack,
        SynthError,
    >)
        ensures
            match mel_apply(self@, key, v@, samples@) {
                Ok(t) => r.is_ok() && r.unwrap()@ == t,
                Err(f) => r.is_err() && r.unwrap_err()@ == f,
            },
    {
        let mut t = self;
        match key {
            MelKey::Name => {
                t.name = string_of(trim(v));
                Ok(t)
            },
            MelKey::Loop => {
                let p: Vec<&[char]> = split_fields(v, ',');
                if p.len() >= 2 {
                    t.loop_point = Some(
                        LoopPoint {
                            start: parse_decimal_or(p[0], Fixed { micros: 0 }),
                            end: parse_decimal_or(p[1], t.length),
                        },
                    );
                }
                Ok(t)
            },
            MelKey::TimeSig => {
                let q: Vec<&[char]> = split_fields(v, '/');
                if q.len() >= 2 {
                    let upper: u32 = match parse_u32(q[0]) {
                        Some(x) => x,
                        None => 4,
                    };
                    let lower: u32 = match parse_u32(q[1]) {
                        Some(x) => x,
                        None => 4,
                    };
                    t.time_signature = (upper, lower);
                }
                Ok(t)
            },
            MelKey::Sample => {
                let name: &[char] = trim(v);
                match samples.lookup(name) {
                    Some(data) => {
                        t.instrument.source = InstrumentSource::Sample(data.clone());
                        Ok(t)
                    },
                    None => Err(
                        SynthError::InvalidInstrument(
                            String::from_str("Sample not found: ").concat(string_of(name).as_str()),
                        ),
                    ),
                }
            },
            MelKey::Waveform => {
                match WaveformType::from_name(trim(v)) {
                    Some(w) => {
                        t.instrument.source = InstrumentSource::Synthesized(w);
                        Ok(t)
                    },
                    None => Err(SynthError::parse("Unknown Waveform")),
                }
            },
            MelKey::Note => {
                let p: Vec<&[char]> = split_fields(v, ',');
                if p.len() >= 3 {
                    match read_note(&p) {
                        Ok(n) => Ok(t.push(SequenceElement::Note(n))),
                        Err(e) => Err(e),
                    }
                } else {
                    Ok(t)
                }
            },
            MelKey::Chord => {
                let p: Vec<&[char]> = split_fields(v, ',');
                if p.len() >= 3 {
                    match read_chord(&p) {
                        Ok(c) => Ok(t.push(SequenceElement::Chord(c))),
                        Err(e) => Err(e),
                    }
                } else {
                    Ok(t)
                }
            },
            MelKey::Rest => {
                match parse_decimal(trim(v)) {
                    Some(d) => Ok(t.push(SequenceElement::Rest(d))),
                    None => Err(SynthError::parse("Invalid rest duration")),
                }
            },
            MelKey::Filter | MelKey::Reverb | MelKey::Delay | MelKey::Distortion => {
                let p: Vec<&[char]> = split_fields(v, ',');
                Ok(t.apply_effect(key, &p))
            },
            _ => {
                match parse_decimal(trim(v)) {
                    Some(x) => Ok(t.set_number(key, x)),
                    None => Err(
                        SynthError::ParseError(String::from_str("Invalid ").concat(key_text(key))),
                    ),
                }
            },
        }
    }

    /// What one trimmed line of a score does to the melody.
    fn apply_line(self, line: &[char], samples: &Cache<SampleData>) -> (r: Result<
        MelodyTrack,
        SynthError,
    >)
        ensures
            match mel_line(self@, line@, samples@) {
                Ok(t) => r.is_ok() && r.unwrap()@ == t,
                Err(f) => r.is_err() && r.unwrap_err()@ == f,
            },
    {
        if line.len() == 0 || starts_comment(line) {
            return Ok(self);
        }
        match find_key(line) {
            Some((key, v)) => self.apply(key, v, samples),
            None => Ok(self),
        }
    }

    /// Reads a melody score. `sample_cache` holds the samples that the score
    /// may name. The result is the melody that the score describes, or the
    /// first fault in it: a number, a waveform or a note that cannot be read,
    /// or a sample that is not in the cache.
    pub fn from_mel(content: &str, sample_cache: &Cache<SampleData>) -> (r: Result<
        MelodyTrack,
        SynthError,
    >)
        ensures
            match melody_of(content@, sample_cache@) {
                Ok(t) => r.is_ok() && r.unwrap()@ == t && length_adds_up(t),
                Err(f) => r.is_err() && r.unwrap_err()@ == f,
            },
    {
        proof {
            lemma_melody_length(content@, sample_cache@);
        }
        let chars: Vec<char> = chars_of(content);
        let lines: Vec<&[char]> = split_fields(chars.as_slice(), '\n');
        let n: usize = lines.len();
        let mut track: MelodyTrack = MelodyTrack::new();
        let mut i: usize = 0;
        let ghost all = views(lines@);
        assert(all.skip(0) =~= all);
        while i < n
            invariant
                i <= n,
                n == lines@.len(),
                all == views(lines@),
                all == fields(content@, '\n'),
                melody_of(content@, sample_cache@) == mel_lines(
                    track@,
                    all.skip(i as int),
                    sample_cache@,
                ),
            decreases n - i,
        {
            proof {
                assert(all.skip(i as int).drop_first() =~= all.skip(i + 1));
                assert(all.skip(i as int)[0] == lines@[i as int]@);
            }
            match track.apply_line(lines[i], sample_cache) {
                Ok(t) => {
                    track = t;
                },
                Err(e) => {
                    return Err(e);
                },
            }
            i += 1;
        }
        Ok(track)
    }
}

} // verus!
