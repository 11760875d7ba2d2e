//! The errors of the synthesizer.

use vstd::prelude::*;
use vstd::string::StringExecFns;

verus! {

/// What went wrong, with a message for the user.
#[derive(Debug)]
pub enum SynthError {
    /// A number, a waveform name or a note of a score could not be read.
    ParseError(String),
    /// A score or a sample could not be read as a file.
    FileError(String),
    /// The audio output could not be opened or started.
    AudioError(String),
    /// A score names a sample or a melody that is not loaded, or an
    /// arrangement holds no track.
    InvalidInstrument(String),
}

/// An error as a mathematical value: its kind and the text of its message.
pub enum Fault {
    Parse(Seq<char>),
    File(Seq<char>),
    Audio(Seq<char>),
    Instrument(Seq<char>),
}

impl View for SynthError {
    type V = Fault;

    open spec fn view(&self) -> Fault {
        match self {
            SynthError::ParseError(m) => Fault::Parse(m@),
            SynthError::FileError(m) => Fault::File(m@),
            SynthError::AudioError(m) => Fault::Audio(m@),
            SynthError::InvalidInstrument(m) => Fault::Instrument(m@),
        }
    }
}

/// The line that tells the user of a fault: the kind, a colon, the message.
pub open spec fn description(f: Fault) -> Seq<char> {
    match f {
        Fault::Parse(m) => "Parsing Error: "@ + m,
        Fault::File(m) => "File Error: "@ + m,
        Fault::Audio(m) => "Audio Error: "@ + m,
        Fault::Instrument(m) => "Invalid Instrument Error: "@ + m,
    }
}

impl Clone for SynthError {
    fn clone(&self) -> (r: Self)
        ensures
            r@ == self@,
    {
        match self {
            SynthError::ParseError(m) => SynthError::ParseError(m.clone()),
            SynthError::FileError(m) => SynthError::FileError(m.clone()),
            SynthError::AudioError(m) => SynthError::AudioError(m.clone()),
            SynthError::InvalidInstrument(m) => SynthError::InvalidInstrument(m.clone()),
        }
    }
}

impl SynthError {
    /// A parse error with the message `text`.
    pub fn parse(text: &str) -> (r: SynthError)
        ensures
            r@ == Fault::Parse(text@),
    {
        SynthError::ParseError(String::from_str(text))
    }

    /// The message alone.
    pub fn message(&self) -> (r: &String)
        ensures
            r@ == (match self@ {
                Fault::Parse(m) => m,
                Fault::File(m) => m,
                Fault::Audio(m) => m,
                Fault::Instrument(m) => m,
            }),
    {
        match self {
            SynthError::ParseError(m) => m,
            SynthError::FileError(m) => m,
            SynthError::AudioError(m) => m,
            SynthError::InvalidInstrument(m) => m,
        }
    }

    /// The line that tells the user of this error.
    pub fn describe(&self) -> (r: String)
        ensures
            r@ == description(self@),
    {
        match self {
            SynthError::ParseError(m) => String::from_str("Parsing Error: ").concat(m.as_str()),
            SynthError::FileError(m) => String::from_str("File Error: ").concat(m.as_str()),
            SynthError::AudioError(m) => String::from_str("Audio Error: ").concat(m.as_str()),
            SynthError::InvalidInstrument(m) => String::from_str(
                "Invalid Instrument Error: ",
            ).concat(m.as_str()),
        }
    }
}

} // verus!
