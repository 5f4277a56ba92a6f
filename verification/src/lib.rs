//! Verified core of an audio import and transcription pipeline.
//!
//! A recording is validated, cut into speech regions, split into pieces an
//! engine can take, transcribed piece by piece and stored as one meeting.
//! This crate holds the decisions of that pipeline; reading files, running
//! engines and talking to a database are left to the host.

pub mod api;
pub mod engine;
pub mod error;
pub mod import_state;
pub mod orchestrator;
pub mod persistence;
pub mod pipeline;
pub mod progress;
pub mod segment;
pub mod segmenter;
pub mod split;
pub mod stamp;
pub mod text;
pub mod transcript;
pub mod units;
pub mod validate;
