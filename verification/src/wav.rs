//! Reading recordings from WAV data.

use vstd::prelude::*;
use crate::error::SynthError;

verus! {

#[verifier::external_type_specification]
#[verifier::external_body]
pub struct ExWavError(hound::Error);

/// What decoding bytes as a WAV file gives: the sample rate and the number
/// of channels that the header tells, and the samples, those of the channels
/// in turn, each read as an integer of 16 bits. Nothing where the header
/// cannot be read or a sample is no integer of at most 16 bits.
pub uninterp spec fn wav_contents(bytes: Seq<u8>) -> Option<(u32, u16, Seq<i16>)>;

/// A recording as it stands in a WAV file.
pub struct WavAudio {
    pub sample_rate: u32,
    pub channels: u16,
    /// The samples, those of the channels in turn.
    pub samples: Vec<i16>,
}

/// Decodes WAV data with `hound`: `WavReader::new` on the bytes reads the
/// header, `spec` gives the sample rate and the number of channels, and the
/// iterator of `samples::<i16>` is collected to its end. The result is the
/// error of the first of these that fails: the header is no WAV header, the
/// samples are no integers of at most 16 bits, or the data ends early.
/// The contract gives what was decoded a name; it is a function of the bytes
/// alone.
#[verifier::external_body]
fn decode_wav(bytes: &[u8]) -> (r: Result<(u32, u16, Vec<i16>), hound::Error>)
    ensures
        match wav_contents(bytes@) {
            Some((rate, channels, samples)) => r matches Ok(v) && v.0 == rate && v.1 == channels
                && v.2@ == samples,
            None => r is Err,
        },
{
    let mut reader = hound::WavReader::new(std::io::Cursor::new(bytes))?;
    let spec = reader.spec();
    let samples: Result<Vec<i16>, hound::Error> = reader.samples::<i16>().collect();
    Ok((spec.sample_rate, spec.channels, samples?))
}

/// The text of a `hound` error, as its `Display` writes it. Nothing is
/// claimed of the text.
#[verifier::external_body]
fn wav_error_text(e: &hound::Error) -> (r: String) {
    e.to_string()
}

/// Reads a recording from the bytes of a WAV file. Where the header cannot
/// be read or a sample is no integer of at most 16 bits, the result is a file
/// error.
pub fn read_wav(bytes: &[u8]) -> (r: Result<WavAudio, SynthError>)
    ensures
        match wav_contents(bytes@) {
            Some((rate, channels, samples)) => r matches Ok(a) && a.sample_rate == rate
                && a.channels == channels && a.samples@ == samples,
            None => r matches Err(e) && e@ is File,
        },
{
    match decode_wav(bytes) {
        Ok((sample_rate, channels, samples)) => Ok(WavAudio { sample_rate, channels, samples }),
        Err(e) => Err(SynthError::FileError(wav_error_text(&e))),
    }
}

} // verus!
