//! Instruments and the elements of a melody.

use std::sync::Arc;
use vstd::prelude::*;
use vstd::string::StringExecFns;
use crate::effects::EffectsChain;
use crate::fixed::Fixed;
use crate::waveform::WaveformType;

verus! {

/// A recording: 16-bit samples and the rate at which they were taken. A
/// sample `s` stands for the level `s / 32768`. The samples are never
/// changed; the copies of a recording share them.
#[derive(Debug)]
pub struct SampleData {
    pub samples: Arc<Vec<i16>>,
    pub sample_rate: u32,
}

pub struct SampleView {
    pub samples: Seq<i16>,
    pub sample_rate: u32,
}

/// Where the sound of an instrument comes from.
#[derive(Debug)]
pub enum InstrumentSource {
    Synthesized(WaveformType),
    Sample(SampleData),
}

pub enum SourceView {
    Synthesized(WaveformType),
    Sample(SampleView),
}

/// An instrument: its source, its envelope (attack, decay and release in
/// seconds, sustain as a level), and how loud and how high it plays.
#[derive(Debug)]
pub struct Instrument {
    pub name: String,
    pub source: InstrumentSource,
    pub attack: Fixed,
    pub decay: Fixed,
    pub sustain: Fixed,
    pub release: Fixed,
    pub volume: Fixed,
    pub pitch: Fixed,
    /// From -1, left, to 1, right.
    pub pan: Fixed,
    /// In cents.
    pub detune: Fixed,
    pub effects: EffectsChain,
}

pub struct InstrumentView {
    pub name: Seq<char>,
    pub source: SourceView,
    pub attack: Fixed,
    pub decay: Fixed,
    pub sustain: Fixed,
    pub release: Fixed,
    pub volume: Fixed,
    pub pitch: Fixed,
    pub pan: Fixed,
    pub detune: Fixed,
    pub effects: EffectsChain,
}

/// One note: a pitch in Hz, a length in beats, a velocity from 0 to 1. With
/// `slide_to` the pitch moves evenly to that pitch over the note.
#[derive(Clone, Copy, Debug, PartialEq, Eq, Structural)]
pub struct Note {
    pub pitch: Fixed,
    pub duration: Fixed,
    pub velocity: Fixed,
    pub pan: Option<Fixed>,
    pub slide_to: Option<Fixed>,
}

/// Several pitches that sound together for `duration` beats.
#[derive(Debug)]
pub struct Chord {
    pub pitches: Vec<Fixed>,
    pub duration: Fixed,
    pub velocity: Fixed,
}

pub struct ChordView {
    pub pitches: Seq<Fixed>,
    pub duration: Fixed,
    pub velocity: Fixed,
}

/// One step of a melody. A rest holds its length in beats.
#[derive(Debug)]
pub enum SequenceElement {
    Note(Note),
    Chord(Chord),
    Rest(Fixed),
}

pub enum ElementView {
    Note(Note),
    Chord(ChordView),
    Rest(Fixed),
}

impl View for SampleData {
    type V = SampleView;

    open spec fn view(&self) -> SampleView {
        SampleView { samples: self.samples@, sample_rate: self.sample_rate }
    }
}

impl View for InstrumentSource {
    type V = SourceView;

    open spec fn view(&self) -> SourceView {
        match self {
            InstrumentSource::Synthesized(w) => SourceView::Synthesized(*w),
            InstrumentSource::Sample(d) => SourceView::Sample(d@),
        }
    }
}

impl View for Instrument {
    type V = InstrumentView;

    open spec fn view(&self) -> InstrumentView {
        InstrumentView {
            name: self.name@,
            source: self.source@,
            attack: self.attack,
            decay: self.decay,
            sustain: self.sustain,
            release: self.release,
            volume: self.volume,
            pitch: self.pitch,
            pan: self.pan,
            detune: self.detune,
            effects: self.effects,
        }
    }
}

impl View for Chord {
    type V = ChordView;

    open spec fn view(&self) -> ChordView {
        ChordView { pitches: self.pitches@, duration: self.duration, velocity: self.velocity }
    }
}

impl View for SequenceElement {
    type V = ElementView;

    open spec fn view(&self) -> ElementView {
        match self {
            SequenceElement::Note(n) => ElementView::Note(*n),
            SequenceElement::Chord(c) => ElementView::Chord(c@),
            SequenceElement::Rest(d) => ElementView::Rest(*d),
        }
    }
}

/// The views of a sequence of elements.
pub open spec fn element_views(s: Seq<SequenceElement>) -> Seq<ElementView> {
    s.map_values(|e: SequenceElement| e@)
}

/// The length of an element in beats.
pub open spec fn beats_of(e: ElementView) -> Fixed {
    match e {
        ElementView::Note(n) => n.duration,
        ElementView::Chord(c) => c.duration,
        ElementView::Rest(d) => d,
    }
}

/// The instrument of a melody that names none: a sine wave at half volume.
pub open spec fn default_instrument() -> InstrumentView {
    InstrumentView {
        name: "Boomie"@,
        source: SourceView::Synthesized(WaveformType::Sine),
        attack: Fixed { micros: 10_000 },
        decay: Fixed { micros: 100_000 },
        sustain: Fixed { micros: 800_000 },
        release: Fixed { micros: 200_000 },
        volume: Fixed { micros: 500_000 },
        pitch: Fixed { micros: 1_000_000 },
        pan: Fixed { micros: 0 },
        detune: Fixed { micros: 0 },
        effects: EffectsChain::none(),
    }
}

/// A copy of a vector of plain values.
pub fn copy_of<T: Copy>(v: &Vec<T>) -> (r: Vec<T>)
    ensures
        r@ == v@,
{
    let n: usize = v.len();
    let mut out: Vec<T> = Vec::new();
    let mut i: usize = 0;
    while i < n
        invariant
            i <= n,
            n == v@.len(),
            out@ == v@.take(i as int),
        decreases n - i,
    {
        out.push(v[i]);
        assert(out@ =~= v@.take(i + 1));
        i += 1;
    }
    assert(v@.take(n as int) =~= v@);
    out
}

/// `Arc::clone`: another reference to the same samples. No sample is copied.
#[verifier::external_body]
fn share(samples: &Arc<Vec<i16>>) -> (r: Arc<Vec<i16>>)
    ensures
        r == *samples,
{
    Arc::clone(samples)
}

impl SampleData {
    /// The recording of `samples` taken at `sample_rate` per second.
    pub fn new(samples: Vec<i16>, sample_rate: u32) -> (r: SampleData)
        ensures
            r@ == (SampleView { samples: samples@, sample_rate }),
    {
        SampleData { samples: Arc::new(samples), sample_rate }
    }

    /// The number of samples.
    pub fn len(&self) -> (r: usize)
        ensures
            r == self@.samples.len(),
    {
        self.samples.len()
    }
}

impl Clone for SampleData {
    fn clone(&self) -> (r: Self)
        ensures
            r@ == self@,
    {
        SampleData { samples: share(&self.samples), sample_rate: self.sample_rate }
    }
}

impl Clone for InstrumentSource {
    fn clone(&self) -> (r: Self)
        ensures
            r@ == self@,
    {
        match self {
            InstrumentSource::Synthesized(w) => InstrumentSource::Synthesized(*w),
            InstrumentSource::Sample(d) => InstrumentSource::Sample(d.clone()),
        }
    }
}

impl Clone for Instrument {
    fn clone(&self) -> (r: Self)
        ensures
            r@ == self@,
    {
        Instrument {
            name: self.name.clone(),
            source: self.source.clone(),
            attack: self.attack,
            decay: self.decay,
            sustain: self.sustain,
            release: self.release,
            volume: self.volume,
            pitch: self.pitch,
            pan: self.pan,
            detune: self.detune,
            effects: self.effects,
        }
    }
}

impl Default for Instrument {
    fn default() -> (r: Self)
        ensures
            r@ == default_instrument(),
    {
        Instrument {
            name: String::from_str("Boomie"),
            source: InstrumentSource::Synthesized(WaveformType::Sine),
            attack: Fixed { micros: 10_000 },
            decay: Fixed { micros: 100_000 },
            sustain: Fixed { micros: 800_000 },
            release: Fixed { micros: 200_000 },
            volume: Fixed { micros: 500_000 },
            pitch: Fixed { micros: 1_000_000 },
            pan: Fixed { micros: 0 },
            detune: Fixed { micros: 0 },
            effects: EffectsChain { reverb: None, delay: None, distortion: None, filter: None },
        }
    }
}

impl Clone for Chord {
    fn clone(&self) -> (r: Self)
        ensures
            r@ == self@,
    {
        Chord {
            pitches: copy_of(&self.pitches),
            duration: self.duration,
            velocity: self.velocity,
        }
    }
}

impl Clone for SequenceElement {
    fn clone(&self) -> (r: Self)
        ensures
            r@ == self@,
    {
        match self {
            SequenceElement::Note(n) => SequenceElement::Note(*n),
            SequenceElement::Chord(c) => SequenceElement::Chord(c.clone()),
            SequenceElement::Rest(d) => SequenceElement::Rest(*d),
        }
    }
}

impl SequenceElement {
    /// The length of the element in beats.
    pub fn beats(&self) -> (r: Fixed)
        ensures
            r == beats_of(self@),
    {
        match self {
            SequenceElement::Note(n) => n.duration,
            SequenceElement::Chord(c) => c.duration,
            SequenceElement::Rest(d) => *d,
        }
    }
}

/// A copy of a sequence of elements.
pub fn copy_elements(v: &Vec<SequenceElement>) -> (r: Vec<SequenceElement>)
    ensures
        element_views(r@) == element_views(v@),
{
    let n: usize = v.len();
    let mut out: Vec<SequenceElement> = Vec::new();
    let mut i: usize = 0;
    while i < n
        invariant
            i <= n,
            n == v@.len(),
            out@.len() == i,
            forall|j: int| 0 <= j < i ==> (#[trigger] out@[j])@ == v@[j]@,
        decreases n - i,
    {
        let e = v[i].clone();
        out.push(e);
        i += 1;
    }
    assert(element_views(out@) =~= element_views(v@));
    out
}

} // verus!
