//! The parameters of the four effects and the chain that holds them.

use std::collections::VecDeque;
use vstd::prelude::*;
use crate::fixed::Fixed;
use crate::timing::{floor_samples, held, samples_floor};
use crate::text::{lowered, reads_as};

verus! {

/// A reverb: eight comb filters and four all-pass filters.
#[derive(Clone, Copy, Debug, PartialEq, Eq, Structural)]
pub struct ReverbParams {
    pub room_size: Fixed,
    pub damping: Fixed,
    pub wet: Fixed,
    /// Kept with the other parameters; the output is mono and does not use it.
    pub width: Fixed,
}

/// A feedback delay.
#[derive(Clone, Copy, Debug, PartialEq, Eq, Structural)]
pub struct DelayParams {
    /// Seconds between a sound and its echo.
    pub time: Fixed,
    pub feedback: Fixed,
    pub wet: Fixed,
}

/// A soft-clip distortion.
#[derive(Clone, Copy, Debug, PartialEq, Eq, Structural)]
pub struct DistortionParams {
    pub drive: Fixed,
    pub tone: Fixed,
    pub wet: Fixed,
}

/// A second-order filter.
#[derive(Clone, Copy, Debug, PartialEq, Eq, Structural)]
pub struct FilterParams {
    /// The cutoff frequency in Hz.
    pub cutoff: Fixed,
    /// The Q factor.
    pub resonance: Fixed,
    pub filter_type: FilterType,
}

#[derive(Clone, Copy, Debug, PartialEq, Eq, Structural)]
pub enum FilterType {
    LowPass,
    HighPass,
    BandPass,
}

/// The effects of an instrument. Each one is there or not; on a sample they
/// work in the order filter, distortion, delay, reverb.
#[derive(Clone, Copy, Debug, PartialEq, Eq, Structural)]
pub struct EffectsChain {
    pub reverb: Option<ReverbParams>,
    pub delay: Option<DelayParams>,
    pub distortion: Option<DistortionParams>,
    pub filter: Option<FilterParams>,
}

/// One of the four effects.
#[derive(Clone, Copy, Debug, PartialEq, Eq, Structural)]
pub enum EffectKind {
    Filter,
    Distortion,
    Delay,
    Reverb,
}

/// The filter type that a score names, whatever the case of its letters. A
/// name that is none of the six known ones stands for a low-pass.
pub open spec fn filter_named(name: Seq<char>) -> FilterType {
    let word = lowered(name);
    if word == "highpass"@ || word == "hp"@ {
        FilterType::HighPass
    } else if word == "bandpass"@ || word == "bp"@ {
        FilterType::BandPass
    } else {
        FilterType::LowPass
    }
}

/// The effects that are there, in the order in which they work.
pub open spec fn stages_of(chain: EffectsChain) -> Seq<EffectKind> {
    (if chain.filter.is_some() {
        seq![EffectKind::Filter]
    } else {
        seq![]
    }) + (if chain.distortion.is_some() {
        seq![EffectKind::Distortion]
    } else {
        seq![]
    }) + (if chain.delay.is_some() {
        seq![EffectKind::Delay]
    } else {
        seq![]
    }) + (if chain.reverb.is_some() {
        seq![EffectKind::Reverb]
    } else {
        seq![]
    })
}

impl Default for ReverbParams {
    fn default() -> (r: Self)
        ensures
            r.room_size.micros == 500_000,
            r.damping.micros == 500_000,
            r.wet.micros == 300_000,
            r.width.micros == 1_000_000,
    {
        ReverbParams {
            room_size: Fixed { micros: 500_000 },
            damping: Fixed { micros: 500_000 },
            wet: Fixed { micros: 300_000 },
            width: Fixed { micros: 1_000_000 },
        }
    }
}

impl Default for DelayParams {
    fn default() -> (r: Self)
        ensures
            r.time.micros == 250_000,
            r.feedback.micros == 400_000,
            r.wet.micros == 300_000,
    {
        DelayParams {
            time: Fixed { micros: 250_000 },
            feedback: Fixed { micros: 400_000 },
            wet: Fixed { micros: 300_000 },
        }
    }
}

impl Default for DistortionParams {
    fn default() -> (r: Self)
        ensures
            r.drive.micros == 2_000_000,
            r.tone.micros == 700_000,
            r.wet.micros == 500_000,
    {
        DistortionParams {
            drive: Fixed { micros: 2_000_000 },
            tone: Fixed { micros: 700_000 },
            wet: Fixed { micros: 500_000 },
        }
    }
}

impl Default for EffectsChain {
    fn default() -> (r: Self)
        ensures
            r == EffectsChain::none(),
    {
        EffectsChain { reverb: None, delay: None, distortion: None, filter: None }
    }
}

impl FilterType {
    /// The filter type that a score names.
    pub fn from_name(name: &[char]) -> (r: FilterType)
        ensures
            r == filter_named(name@),
    {
        if reads_as(name, "highpass") || reads_as(name, "hp") {
            FilterType::HighPass
        } else if reads_as(name, "bandpass") || reads_as(name, "bp") {
            FilterType::BandPass
        } else {
            FilterType::LowPass
        }
    }
}

impl EffectsChain {
    /// The chain without any effect.
    pub open spec fn none() -> EffectsChain {
        EffectsChain { reverb: None, delay: None, distortion: None, filter: None }
    }

    /// Whether any effect is there.
    pub fn has_any(&self) -> (r: bool)
        ensures
            r == (self.reverb.is_some() || self.delay.is_some() || self.distortion.is_some()
                || self.filter.is_some()),
            r == (stages_of(*self).len() > 0),
    {
        self.reverb.is_some() || self.delay.is_some() || self.distortion.is_some()
            || self.filter.is_some()
    }

    /// The effects that are there, in the order in which they work on a
    /// sample: filter, distortion, delay, reverb.
    pub fn stages(&self) -> (r: Vec<EffectKind>)
        ensures
            r@ == stages_of(*self),
    {
        let mut out: Vec<EffectKind> = Vec::new();
        if self.filter.is_some() {
            out.push(EffectKind::Filter);
        }
        if self.distortion.is_some() {
            out.push(EffectKind::Distortion);
        }
        if self.delay.is_some() {
            out.push(EffectKind::Delay);
        }
        if self.reverb.is_some() {
            out.push(EffectKind::Reverb);
        }
        assert(out@ =~= stages_of(*self));
        out
    }
}

/// A line of samples of a fixed length: each new sample goes in at the
/// front, and the oldest one leaves at the back.
pub struct DelayLine<T> {
    pub buffer: VecDeque<T>,
}

impl<T> View for DelayLine<T> {
    type V = Seq<T>;

    open spec fn view(&self) -> Seq<T> {
        self.buffer@
    }
}

/// The state that the effects keep from one sample to the next: the eight
/// comb filters and four all-pass filters of the reverb, the line of the
/// delay, the last output of the distortion's low-pass, and the last two
/// inputs and outputs of the filter. The sample type is the caller's.
pub struct EffectsProcessor<T> {
    pub sample_rate: u32,
    pub comb_buffers: Vec<DelayLine<T>>,
    pub comb_filter_state: Vec<T>,
    pub allpass_buffers: Vec<DelayLine<T>>,
    pub delay_buffer: DelayLine<T>,
    pub lowpass_state: T,
    /// The last input of the filter and the one before it.
    pub filter_inputs: (T, T),
    /// The last output of the filter and the one before it.
    pub filter_state: (T, T),
}

/// The length of the comb filter `i` of the reverb at 44100 samples per
/// second.
pub open spec fn comb_delay(i: int) -> int {
    if i == 0 {
        1116
    } else if i == 1 {
        1188
    } else if i == 2 {
        1277
    } else if i == 3 {
        1356
    } else if i == 4 {
        1422
    } else if i == 5 {
        1491
    } else if i == 6 {
        1557
    } else {
        1617
    }
}

/// The length of the all-pass filter `i` of the reverb at 44100 samples per
/// second.
pub open spec fn allpass_delay(i: int) -> int {
    if i == 0 {
        556
    } else if i == 1 {
        441
    } else if i == 2 {
        341
    } else {
        225
    }
}

/// A length in samples at 44100 per second, as samples at `rate`, rounded
/// down.
pub open spec fn scaled_delay(samples: int, rate: u32) -> int {
    samples * rate / 44100
}

/// The length of the line of the delay: two seconds, as far as a `usize`
/// holds that many samples.
pub open spec fn delay_capacity(rate: u32) -> int {
    if 2 * rate > usize::MAX {
        usize::MAX as int
    } else {
        2 * rate
    }
}

/// The line of `len` samples that all are `fill`.
pub open spec fn filled<T>(len: int, fill: T) -> Seq<T> {
    Seq::new(len as nat, |i: int| fill)
}

/// The line after `value` has gone in: one sample has left at the back,
/// unless the line was empty.
pub open spec fn cycled<T>(line: Seq<T>, value: T) -> Seq<T> {
    seq![value] + (if line.len() > 0 {
        line.drop_last()
    } else {
        line
    })
}

/// The sample `offset` places from the front, or the last one where the line
/// is shorter than that; none in an empty line.
pub open spec fn tapped<T>(line: Seq<T>, offset: int) -> Option<T> {
    if line.len() == 0 {
        None
    } else if offset >= line.len() {
        Some(line.last())
    } else {
        Some(line[offset])
    }
}

/// The line after each of `inputs` has gone in, in order.
pub open spec fn fed<T>(line: Seq<T>, inputs: Seq<T>) -> Seq<T>
    decreases inputs.len(),
{
    if inputs.len() == 0 {
        line
    } else {
        cycled(fed(line, inputs.drop_last()), inputs.last())
    }
}

/// A line gives back what went in: after a stream of samples has gone in,
/// the sample `k` places from the front is the one that went in `k` samples
/// before the last, and behind the stream stands what the line held before.
/// So a sample is read again exactly as many samples later as it stands from
/// the front, and an echo comes at that distance again and again.
pub proof fn lemma_line_recalls<T>(line: Seq<T>, inputs: Seq<T>, k: int)
    requires
        0 <= k < line.len(),
    ensures
        fed(line, inputs).len() == line.len(),
        k < inputs.len() ==> fed(line, inputs)[k] == inputs[inputs.len() - 1 - k],
        k >= inputs.len() ==> fed(line, inputs)[k] == line[k - inputs.len()],
    decreases inputs.len(),
{
    if inputs.len() > 0 {
        let before = inputs.drop_last();
        lemma_line_recalls(line, before, k);
        if k > 0 {
            lemma_line_recalls(line, before, k - 1);
            assert(fed(line, inputs)[k] == fed(line, before)[k - 1]);
            if k - 1 < before.len() {
                assert(before[before.len() - 1 - (k - 1)] == inputs[inputs.len() - 1 - k]);
            }
        }
    }
}

impl<T: Copy> DelayLine<T> {
    /// A line of `len` samples that all are `fill`.
    pub fn new(len: usize, fill: T) -> (r: Self)
        ensures
            r@ == filled(len as int, fill),
    {
        let mut buffer: VecDeque<T> = VecDeque::new();
        let mut i: usize = 0;
        while i < len
            invariant
                i <= len,
                buffer@ == filled(i as int, fill),
            decreases len - i,
        {
            buffer.push_back(fill);
            assert(buffer@ =~= filled(i + 1, fill));
            i += 1;
        }
        DelayLine { buffer }
    }

    /// The number of samples in the line.
    pub fn len(&self) -> (r: usize)
        ensures
            r == self@.len(),
    {
        self.buffer.len()
    }

    /// The sample `offset` places from the front, or the last one where the
    /// line is shorter than that; none in an empty line.
    pub fn tap(&self, offset: usize) -> (r: Option<T>)
        ensures
            r == tapped(self@, offset as int),
    {
        let n: usize = self.buffer.len();
        if n == 0 {
            None
        } else if offset >= n {
            Some(self.buffer[n - 1])
        } else {
            Some(self.buffer[offset])
        }
    }

    /// The sample that leaves next; none in an empty line.
    pub fn back(&self) -> (r: Option<T>)
        ensures
            r == (if self@.len() > 0 {
                Some(self@.last())
            } else {
                None
            }),
    {
        let n: usize = self.buffer.len();
        if n == 0 {
            None
        } else {
            Some(self.buffer[n - 1])
        }
    }

    /// Lets the oldest sample leave at the back and puts `value` in at the
    /// front.
    pub fn cycle(&mut self, value: T)
        ensures
            final(self)@ == cycled(old(self)@, value),
    {
        let ghost before = self.buffer@;
        let _ = self.buffer.pop_back();
        assert(self.buffer@ =~= (if before.len() > 0 {
            before.drop_last()
        } else {
            before
        }));
        self.buffer.push_front(value);
    }
}

fn comb_length(i: usize) -> (r: u64)
    ensures
        r == comb_delay(i as int),
{
    if i == 0 {
        1116
    } else if i == 1 {
        1188
    } else if i == 2 {
        1277
    } else if i == 3 {
        1356
    } else if i == 4 {
        1422
    } else if i == 5 {
        1491
    } else if i == 6 {
        1557
    } else {
        1617
    }
}

fn allpass_length(i: usize) -> (r: u64)
    ensures
        r == allpass_delay(i as int),
{
    if i == 0 {
        556
    } else if i == 1 {
        441
    } else if i == 2 {
        341
    } else {
        225
    }
}

/// A length in samples at 44100 per second, as samples at `rate`.
fn scale_length(samples: u64, rate: u32) -> (r: usize)
    requires
        samples <= 1617,
    ensures
        r == scaled_delay(samples as int, rate),
{
    assert(samples * rate <= 1617 * 0xffff_ffff) by (nonlinear_arith)
        requires
            0 <= samples <= 1617,
            0 <= rate <= 0xffff_ffff,
    ;
    let scaled: u64 = samples * (rate as u64) / 44100;
    scaled as usize
}

impl<T: Copy> EffectsProcessor<T> {
    /// Whether the processor is as `new` makes it for `rate` and `zero`.
    pub open spec fn fresh(&self, rate: u32, zero: T) -> bool {
        &&& self.sample_rate == rate
        &&& self.comb_buffers@.len() == 8
        &&& forall|i: int|
            0 <= i < 8 ==> (#[trigger] self.comb_buffers@[i])@ == filled(
                scaled_delay(comb_delay(i), rate),
                zero,
            )
        &&& self.comb_filter_state@ == filled(8, zero)
        &&& self.allpass_buffers@.len() == 4
        &&& forall|i: int|
            0 <= i < 4 ==> (#[trigger] self.allpass_buffers@[i])@ == filled(
                scaled_delay(allpass_delay(i), rate),
                zero,
            )
        &&& self.delay_buffer@ == filled(delay_capacity(rate), zero)
        &&& self.lowpass_state == zero
        &&& self.filter_inputs == (zero, zero)
        &&& self.filter_state == (zero, zero)
    }

    /// The state before the first sample, for an output of `sample_rate`
    /// samples per second: every line filled with `zero`, the lines of the
    /// reverb as long as their lengths at 44100 samples per second scaled to
    /// the rate, the line of the delay two seconds long.
    pub fn new(sample_rate: u32, zero: T) -> (r: Self)
        ensures
            r.fresh(sample_rate, zero),
    {
        let mut comb_buffers: Vec<DelayLine<T>> = Vec::new();
        let mut comb_filter_state: Vec<T> = Vec::new();
        let mut i: usize = 0;
        while i < 8
            invariant
                i <= 8,
                comb_buffers@.len() == i,
                comb_filter_state@ == filled(i as int, zero),
                forall|j: int|
                    0 <= j < i ==> (#[trigger] comb_buffers@[j])@ == filled(
                        scaled_delay(comb_delay(j), sample_rate),
                        zero,
                    ),
            decreases 8 - i,
        {
            comb_buffers.push(DelayLine::new(scale_length(comb_length(i), sample_rate), zero));
            comb_filter_state.push(zero);
            assert(comb_filter_state@ =~= filled(i + 1, zero));
            i += 1;
        }
        let mut allpass_buffers: Vec<DelayLine<T>> = Vec::new();
        let mut k: usize = 0;
        while k < 4
            invariant
                k <= 4,
                allpass_buffers@.len() == k,
                forall|j: int|
                    0 <= j < k ==> (#[trigger] allpass_buffers@[j])@ == filled(
                        scaled_delay(allpass_delay(j), sample_rate),
                        zero,
                    ),
            decreases 4 - k,
        {
            allpass_buffers.push(
                DelayLine::new(scale_length(allpass_length(k), sample_rate), zero),
            );
            k += 1;
        }
        let wide: u64 = 2 * (sample_rate as u64);
        let capacity: usize = if wide > usize::MAX as u64 {
            usize::MAX
        } else {
            wide as usize
        };
        EffectsProcessor {
            sample_rate,
            comb_buffers,
            comb_filter_state,
            allpass_buffers,
            delay_buffer: DelayLine::new(capacity, zero),
            lowpass_state: zero,
            filter_inputs: (zero, zero),
            filter_state: (zero, zero),
        }
    }

    /// The sample that the delay reads for an echo after `time` seconds: the
    /// one that many samples back in its line, or the oldest one where the
    /// line is shorter; none where the line is empty.
    pub fn delayed(&self, time: Fixed) -> (r: Option<T>)
        ensures
            r == tapped(self.delay_buffer@, held(floor_samples(time, self.sample_rate)) as int),
            self.delay_buffer@.len() > 0 ==> r.is_some(),
    {
        let back: u64 = samples_floor(time, self.sample_rate);
        let n: usize = self.delay_buffer.len();
        if back >= n as u64 {
            self.delay_buffer.tap(n)
        } else {
            self.delay_buffer.tap(back as usize)
        }
    }
}

} // verus!
