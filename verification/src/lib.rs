//! A synthesizer driven by text scores: the score formats, the timeline of a
//! track in samples, the playback state machine and the bookkeeping of the
//! effects, all on exact integer values.
//!
//! Every number is a `Fixed`, a whole number of millionths. Sample values
//! that need floating point (a sine, a filter) are left to the caller, who
//! gets from here where each sample belongs and by what it is multiplied.

pub mod arrangement;
pub mod cache;
pub mod effects;
pub mod engine;
pub mod envelope;
pub mod error;
pub mod fixed;
pub mod instrument;
pub mod render;
pub mod sampler;
pub mod text;
pub mod timing;
pub mod track;
pub mod utils;
pub mod wav;
pub mod waveform;

pub use arrangement::{Arrangement, TrackOverrides};
pub use cache::Cache;
pub use effects::{
    DelayLine, DelayParams, DistortionParams, EffectKind, EffectsChain, EffectsProcessor,
    FilterParams, FilterType, ReverbParams,
};
pub use engine::{
    CallbackFrames, DynamicParameters, FrameGain, FrameMix, PlaybackContext, PlaybackState,
    SynthEngine,
};
pub use envelope::calculate_envelope;
pub use error::SynthError;
pub use fixed::{Fixed, Ratio};
pub use instrument::{Chord, Instrument, InstrumentSource, Note, SampleData, SequenceElement};
pub use render::{locate, plan_arrangement, Placement, RenderPlan, Segment, TrackPlan};
pub use sampler::interpolate_sample;
pub use track::{LoopPoint, MelodyTrack};
pub use utils::parse_note;
pub use waveform::WaveformType;
