//! The ways an import can fail.

use crate::import_state::ConcurrencyError;
use crate::persistence::Statement;
use crate::text::{decimal, push_decimal};
use vstd::prelude::*;

verus! {

/// Why a file was turned down before anything was created for it.
#[derive(Clone, Debug, PartialEq, Eq)]
pub enum ValidationError {
    /// Nothing exists at the path.
    NotFound { path: String },
    /// The extension, in lower case, is not one of the supported ones.
    UnsupportedFormat { extension: String },
    /// The file exists but its size could not be read.
    Unreadable { cause: String },
    /// The file could not be decoded.
    DecodeFailed { cause: String },
}

/// Why the speech regions of a recording could not be found.
#[derive(Clone, Debug, PartialEq, Eq)]
pub enum SegmentationError {
    /// Frames of no samples were asked for.
    EmptyFrame,
    /// The number of verdicts is not the number of frames in the audio.
    FrameCount { expected: usize, found: usize },
    /// The detector itself failed.
    Detector { cause: String },
    /// The task that ran the detector broke off.
    TaskPanicked { cause: String },
}

/// Which of the two transcription engines is meant.
#[derive(Clone, Copy, Debug, PartialEq, Eq, Structural)]
pub enum EngineKind {
    Whisper,
    Parakeet,
}

/// Why an engine could not be made ready, or failed at work.
#[derive(Clone, Debug, PartialEq, Eq)]
pub enum EngineError {
    /// No handle for this engine was set up when the process started.
    NotInitialized { kind: EngineKind },
    /// The stored settings that name the model could not be read.
    ConfigUnavailable { cause: String },
    /// The model could not be loaded.
    LoadFailed { model: String, cause: String },
    /// The engine failed on the region with this index.
    InferenceFailed { kind: EngineKind, segment_index: usize, cause: String },
}

/// Everything that ends an import early.
#[derive(Clone, Debug, PartialEq, Eq)]
pub enum ImportFailure {
    Validation(ValidationError),
    Concurrency(ConcurrencyError),
    /// Cancellation was seen at a checkpoint.
    Cancelled,
    /// The state of the application, which holds the database, is not
    /// there.
    StateUnavailable,
    /// The meeting folder could not be made.
    Folder { cause: String },
    /// The audio could not be copied into the meeting folder.
    Copy { cause: String },
    Decode { cause: String },
    Segmentation(SegmentationError),
    Engine(EngineError),
    /// The statement `failed` of the closing transaction did not go
    /// through; nothing was stored.
    Persistence { failed: Statement, cause: String },
}

/// The name of an engine as it appears in messages.
pub open spec fn engine_name(kind: EngineKind) -> Seq<char> {
    match kind {
        EngineKind::Whisper => "Whisper"@,
        EngineKind::Parakeet => "Parakeet"@,
    }
}

/// What the user is told of a validation error.
pub open spec fn validation_message(error: ValidationError) -> Seq<char> {
    match error {
        ValidationError::NotFound { path } => "File does not exist: "@ + path@,
        ValidationError::UnsupportedFormat { extension } => "Unsupported format: ."@ + extension@
            + ". Supported: mp4, m4a, wav, mp3, flac, ogg, aac, wma"@,
        ValidationError::Unreadable { cause } => "Cannot read file: "@ + cause@,
        ValidationError::DecodeFailed { cause } => cause@,
    }
}

/// What the user is told of a request that was turned down.
pub open spec fn concurrency_message(error: ConcurrencyError) -> Seq<char> {
    match error {
        ConcurrencyError::ImportAlreadyInProgress => "Import already in progress"@,
        ConcurrencyError::NoImportInProgress => "No import in progress"@,
    }
}

/// What the user is told of an engine error.
pub open spec fn engine_message(error: EngineError) -> Seq<char> {
    match error {
        EngineError::NotInitialized { kind } => engine_name(kind) + " engine not initialized"@,
        EngineError::ConfigUnavailable { cause } => "Failed to query config: "@ + cause@,
        EngineError::LoadFailed { model, cause } => "Failed to load model '"@ + model@ + "': "@
            + cause@,
        EngineError::InferenceFailed { kind, segment_index, cause } => engine_name(kind)
            + " transcription failed on segment "@ + decimal(segment_index as nat) + ": "@
            + cause@,
    }
}

/// What the user is told when speech detection fails.
pub open spec fn segmentation_message(error: SegmentationError) -> Seq<char> {
    match error {
        SegmentationError::EmptyFrame => "VAD processing failed: frames hold no samples"@,
        SegmentationError::FrameCount { expected, found } => "VAD processing failed: expected "@
            + decimal(expected as nat) + " frames, found "@ + decimal(found as nat),
        SegmentationError::Detector { cause } => "VAD processing failed: "@ + cause@,
        SegmentationError::TaskPanicked { cause } => "VAD task panicked: "@ + cause@,
    }
}

/// What a message about a statement that failed begins with.
pub open spec fn statement_failure(failed: Statement) -> Seq<char> {
    match failed {
        Statement::Connect => "DB error: "@,
        Statement::Begin => "Failed to start transaction: "@,
        Statement::InsertMeeting => "Failed to create meeting: "@,
        Statement::InsertTranscript { .. } => "Failed to insert transcript: "@,
        Statement::Commit => "Failed to commit transaction: "@,
    }
}

/// What the user is told of a failed import. A source that is not
/// there is named as such; every other validation error reads as it
/// does on its own.
pub open spec fn failure_message(failure: ImportFailure) -> Seq<char> {
    match failure {
        ImportFailure::Validation(ValidationError::NotFound { path }) => "Source file not found: "@
            + path@,
        ImportFailure::Validation(error) => validation_message(error),
        ImportFailure::Concurrency(error) => concurrency_message(error),
        ImportFailure::Cancelled => "Import cancelled"@,
        ImportFailure::StateUnavailable => "App state not available"@,
        ImportFailure::Folder { cause } => cause@,
        ImportFailure::Copy { cause } => "Failed to copy audio file: "@ + cause@,
        ImportFailure::Decode { cause } => cause@,
        ImportFailure::Segmentation(error) => segmentation_message(error),
        ImportFailure::Engine(error) => engine_message(error),
        ImportFailure::Persistence { failed, cause } => statement_failure(failed) + cause@,
    }
}

impl EngineKind {
    /// The name of the engine as it appears in messages.
    pub fn name(self) -> (name: &'static str)
        ensures
            name@ == engine_name(self),
    {
        match self {
            EngineKind::Whisper => "Whisper",
            EngineKind::Parakeet => "Parakeet",
        }
    }
}

impl ValidationError {
    /// What the user is told of this error.
    pub fn message(&self) -> (text: String)
        ensures
            text@ == validation_message(*self),
    {
        match self {
            ValidationError::NotFound { path } => {
                let mut text: String = "File does not exist: ".to_owned();
                text.append(path.as_str());
                text
            },
            ValidationError::UnsupportedFormat { extension } => {
                let mut text: String = "Unsupported format: .".to_owned();
                text.append(extension.as_str());
                text.append(". Supported: mp4, m4a, wav, mp3, flac, ogg, aac, wma");
                text
            },
            ValidationError::Unreadable { cause } => {
                let mut text: String = "Cannot read file: ".to_owned();
                text.append(cause.as_str());
                text
            },
            ValidationError::DecodeFailed { cause } => cause.clone(),
        }
    }
}

impl ConcurrencyError {
    /// What the user is told of this error.
    pub fn message(&self) -> (text: String)
        ensures
            text@ == concurrency_message(*self),
    {
        match self {
            ConcurrencyError::ImportAlreadyInProgress => "Import already in progress".to_owned(),
            ConcurrencyError::NoImportInProgress => "No import in progress".to_owned(),
        }
    }
}

impl EngineError {
    /// What the user is told of this error.
    pub fn message(&self) -> (text: String)
        ensures
            text@ == engine_message(*self),
    {
        match self {
            EngineError::NotInitialized { kind } => {
                let mut text: String = kind.name().to_owned();
                text.append(" engine not initialized");
                text
            },
            EngineError::ConfigUnavailable { cause } => {
                let mut text: String = "Failed to query config: ".to_owned();
                text.append(cause.as_str());
                text
            },
            EngineError::LoadFailed { model, cause } => {
                let mut text: String = "Failed to load model '".to_owned();
                text.append(model.as_str());
                text.append("': ");
                text.append(cause.as_str());
                text
            },
            EngineError::InferenceFailed { kind, segment_index, cause } => {
                let mut text: String = kind.name().to_owned();
                text.append(" transcription failed on segment ");
                push_decimal(&mut text, *segment_index as u64);
                text.append(": ");
                text.append(cause.as_str());
                text
            },
        }
    }
}

impl SegmentationError {
    /// What the user is told of this error.
    pub fn message(&self) -> (text: String)
        ensures
            text@ == segmentation_message(*self),
    {
        match self {
            SegmentationError::EmptyFrame => "VAD processing failed: frames hold no samples".to_owned(),
            SegmentationError::FrameCount { expected, found } => {
                let mut text: String = "VAD processing failed: expected ".to_owned();
                push_decimal(&mut text, *expected as u64);
                text.append(" frames, found ");
                push_decimal(&mut text, *found as u64);
                text
            },
            SegmentationError::Detector { cause } => {
                let mut text: String = "VAD processing failed: ".to_owned();
                text.append(cause.as_str());
                text
            },
            SegmentationError::TaskPanicked { cause } => {
                let mut text: String = "VAD task panicked: ".to_owned();
                text.append(cause.as_str());
                text
            },
        }
    }
}

impl ImportFailure {
    /// What the user is told of this failure.
    pub fn message(&self) -> (text: String)
        ensures
            text@ == failure_message(*self),
    {
        match self {
            ImportFailure::Validation(ValidationError::NotFound { path }) => {
                let mut text: String = "Source file not found: ".to_owned();
                text.append(path.as_str());
                text
            },
            ImportFailure::Validation(error) => error.message(),
            ImportFailure::Concurrency(error) => error.message(),
            ImportFailure::Cancelled => "Import cancelled".to_owned(),
            ImportFailure::StateUnavailable => "App state not available".to_owned(),
            ImportFailure::Folder { cause } => cause.clone(),
            ImportFailure::Copy { cause } => {
                let mut text: String = "Failed to copy audio file: ".to_owned();
                text.append(cause.as_str());
                text
            },
            ImportFailure::Decode { cause } => cause.clone(),
            ImportFailure::Segmentation(error) => error.message(),
            ImportFailure::Engine(error) => error.message(),
            ImportFailure::Persistence { failed, cause } => {
                let mut text: String = match failed {
                    Statement::Connect => "DB error: ".to_owned(),
                    Statement::Begin => "Failed to start transaction: ".to_owned(),
                    Statement::InsertMeeting => "Failed to create meeting: ".to_owned(),
                    Statement::InsertTranscript { .. } => "Failed to insert transcript: ".to_owned(),
                    Statement::Commit => "Failed to commit transaction: ".to_owned(),
                };
                text.append(cause.as_str());
                text
            },
        }
    }
}

} // verus!
