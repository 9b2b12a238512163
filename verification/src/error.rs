//! The error taxonomy shared by every component.

use vstd::prelude::*;
use vstd::string::*;

verus! {

/// Why an input to the engine or the splitter was turned down.
#[derive(Debug, Clone, Copy, PartialEq, Eq, Structural)]
pub enum InputFault {
    /// The left and right channels differ in length.
    LengthMismatch,
    /// The window does not have the length the model was built for.
    WindowLength,
    /// The audio holds no frame.
    EmptyAudio,
    /// The sample rate is not the one the splitter supports.
    SampleRate,
    /// The manifest's window and hop do not satisfy `0 < hop <= window`.
    WindowHop,
}

/// Every failure the library reports.
#[derive(Debug, PartialEq, Eq)]
pub enum StemError {
    /// A filesystem or transport failure, with the collaborator's message.
    IoError(String),
    /// The model name is not in the registry.
    RegistryMiss(String),
    /// The manifest could not be parsed or breaks its schema.
    ManifestInvalid(String),
    /// The artifact on disk does not hash to the manifest's digest.
    ChecksumMismatch { path: String },
    /// No per-user cache root could be resolved.
    CacheDirUnavailable,
    /// The caller's audio or window was turned down.
    InputInvalid(InputFault),
    /// A tensor's dimensions disagree with the model's constants.
    ShapeMismatch,
    /// The model lacks the named input or output.
    ModelInterface(String),
    /// The inference runtime reported an error.
    InferenceFailure(String),
    /// An internal invariant was violated.
    Internal(String),
}

/// The fixed text that describes an input fault.
pub open spec fn fault_text(fault: InputFault) -> Seq<char> {
    match fault {
        InputFault::LengthMismatch => "L/R length mismatch"@,
        InputFault::WindowLength => "Bad window length"@,
        InputFault::EmptyAudio => "Empty audio"@,
        InputFault::SampleRate => "Unsupported sample rate"@,
        InputFault::WindowHop => "Bad win/hop in manifest"@,
    }
}

impl InputFault {
    /// The fixed text that describes this fault.
    pub fn text(&self) -> (res: &'static str)
        ensures
            res@ == fault_text(*self),
    {
        match self {
            InputFault::LengthMismatch => "L/R length mismatch",
            InputFault::WindowLength => "Bad window length",
            InputFault::EmptyAudio => "Empty audio",
            InputFault::SampleRate => "Unsupported sample rate",
            InputFault::WindowHop => "Bad win/hop in manifest",
        }
    }
}

impl StemError {
    /// The text of `message`: a fixed prefix for the kind, then the detail.
    pub open spec fn message_text(self) -> Seq<char> {
        match self {
            StemError::IoError(detail) => "I/O error: "@ + detail@,
            StemError::RegistryMiss(detail) => "Registry error: "@ + detail@,
            StemError::ManifestInvalid(detail) => "Manifest error: "@ + detail@,
            StemError::ChecksumMismatch { path } => "Checksum mismatch for "@ + path@,
            StemError::CacheDirUnavailable => "Cache dir not available"@,
            StemError::InputInvalid(fault) => "Invalid input: "@ + fault_text(fault),
            StemError::ShapeMismatch => "Spec dims mismatch"@,
            StemError::ModelInterface(detail) => "Model interface error: "@ + detail@,
            StemError::InferenceFailure(detail) => "Inference failed: "@ + detail@,
            StemError::Internal(detail) => "Internal error: "@ + detail@,
        }
    }

    /// A human-readable description of the error.
    pub fn message(&self) -> (res: String)
        ensures
            res@ == self.message_text(),
    {
        match self {
            StemError::IoError(detail) => String::from_str("I/O error: ").concat(detail.as_str()),
            StemError::RegistryMiss(detail) => String::from_str("Registry error: ").concat(
                detail.as_str(),
            ),
            StemError::ManifestInvalid(detail) => String::from_str("Manifest error: ").concat(
                detail.as_str(),
            ),
            StemError::ChecksumMismatch { path } => String::from_str(
                "Checksum mismatch for ",
            ).concat(path.as_str()),
            StemError::CacheDirUnavailable => String::from_str("Cache dir not available"),
            StemError::InputInvalid(fault) => String::from_str("Invalid input: ").concat(
                fault.text(),
            ),
            StemError::ShapeMismatch => String::from_str("Spec dims mismatch"),
            StemError::ModelInterface(detail) => String::from_str(
                "Model interface error: ",
            ).concat(detail.as_str()),
            StemError::InferenceFailure(detail) => String::from_str("Inference failed: ").concat(
                detail.as_str(),
            ),
            StemError::Internal(detail) => String::from_str("Internal error: ").concat(
                detail.as_str(),
            ),
        }
    }
}

} // verus!
