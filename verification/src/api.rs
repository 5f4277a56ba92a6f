//! The values that travel between the host's commands and their callers,
//! and the few rules those commands follow.

use crate::text::{text_eq, uppercase, uppercased};
use crate::transcript::TranscriptSegment;
use crate::units::Seconds;
use vstd::prelude::*;

verus! {

/// The envelope of an answer: either data or an error.
#[derive(Clone, Debug, PartialEq, Eq)]
pub struct ApiResponse<T> {
    pub success: bool,
    pub data: Option<T>,
    pub error: Option<String>,
}

#[derive(Clone, Debug, PartialEq, Eq)]
pub struct Meeting {
    pub id: String,
    pub title: String,
}

#[derive(Clone, Debug, PartialEq, Eq)]
pub struct SearchRequest {
    pub query: String,
}

#[derive(Clone, Debug, PartialEq, Eq)]
pub struct TranscriptSearchResult {
    pub id: String,
    pub title: String,
    pub match_context: String,
    pub timestamp: String,
}

#[derive(Clone, Debug, PartialEq, Eq)]
pub struct ProfileRequest {
    pub email: String,
    pub license_key: String,
}

#[derive(Clone, Debug, PartialEq, Eq)]
pub struct SaveProfileRequest {
    pub id: String,
    pub email: String,
}

#[derive(Clone, Debug, PartialEq, Eq)]
pub struct UpdateProfileRequest {
    pub email: String,
    pub license_key: String,
    pub company: String,
    pub position: String,
}

#[derive(Clone, Debug, PartialEq, Eq)]
pub struct ModelConfig {
    pub provider: String,
    pub model: String,
    pub whisper_model: String,
    pub api_key: Option<String>,
    pub ollama_endpoint: Option<String>,
}

#[derive(Clone, Debug, PartialEq, Eq)]
pub struct SaveModelConfigRequest {
    pub provider: String,
    pub model: String,
    pub whisper_model: String,
    pub api_key: Option<String>,
    pub ollama_endpoint: Option<String>,
}

#[derive(Clone, Debug, PartialEq, Eq)]
pub struct GetApiKeyRequest {
    pub provider: String,
}

#[derive(Clone, Debug, PartialEq, Eq)]
pub struct TranscriptConfig {
    pub provider: String,
    pub model: String,
    pub api_key: Option<String>,
}

#[derive(Clone, Debug, PartialEq, Eq)]
pub struct SaveTranscriptConfigRequest {
    pub provider: String,
    pub model: String,
    pub api_key: Option<String>,
}

#[derive(Clone, Debug, PartialEq, Eq)]
pub struct DeleteMeetingRequest {
    pub meeting_id: String,
}

#[derive(Clone, Debug, PartialEq, Eq)]
pub struct MeetingDetails {
    pub id: String,
    pub title: String,
    pub created_at: String,
    pub updated_at: String,
    pub transcripts: Vec<MeetingTranscript>,
}

/// One stored piece of transcript. Times are relative to the start of
/// the recording.
#[derive(Clone, Debug, PartialEq, Eq)]
pub struct MeetingTranscript {
    pub id: String,
    pub text: String,
    pub timestamp: String,
    pub audio_start_time: Option<Seconds>,
    pub audio_end_time: Option<Seconds>,
    pub duration: Option<Seconds>,
}

#[derive(Clone, Debug, PartialEq, Eq)]
pub struct SaveMeetingTitleRequest {
    pub meeting_id: String,
    pub title: String,
}

#[derive(Clone, Debug, PartialEq, Eq)]
pub struct SaveTranscriptRequest {
    pub meeting_title: String,
    pub transcripts: Vec<TranscriptSegment>,
}

#[derive(Clone, Debug, PartialEq, Eq)]
pub struct Profile {
    pub id: String,
    pub name: Option<String>,
    pub email: String,
    pub license_key: String,
    pub company: Option<String>,
    pub position: Option<String>,
    pub created_at: String,
    pub updated_at: String,
    pub is_licensed: bool,
}

impl TranscriptConfig {
    /// The settings to answer with: the stored ones, or the fallback
    /// when none are stored.
    pub fn or_fallback(stored: Option<TranscriptConfig>) -> (config: TranscriptConfig)
        ensures
            stored matches Some(found) ==> config == found,
            stored is None ==> config.provider@ == "parakeet"@ && config.model@
                == "parakeet-tdt-0.6b-v3-int8"@ && config.api_key is None,
    {
        match stored {
            Some(found) => found,
            None => TranscriptConfig::fallback(),
        }
    }

    /// The settings that hold when none are stored: the Parakeet engine
    /// with its default model and no key.
    pub fn fallback() -> (config: TranscriptConfig)
        ensures
            config.provider@ == "parakeet"@,
            config.model@ == "parakeet-tdt-0.6b-v3-int8"@,
            config.api_key is None,
    {
        TranscriptConfig {
            provider: "parakeet".to_owned(),
            model: "parakeet-tdt-0.6b-v3-int8".to_owned(),
            api_key: None,
        }
    }
}

/// Whether a key that came with new settings is to be stored: only if
/// there is one and it is not empty.
pub fn wants_key_stored(api_key: &Option<String>) -> (b: bool)
    ensures
        b == (api_key matches Some(key) && key@.len() > 0),
{
    match api_key {
        Some(key) => !key.as_str().is_empty(),
        None => false,
    }
}

/// One thing to do when new model settings come in.
#[derive(Clone, Copy, Debug, PartialEq, Eq, Structural)]
pub enum ConfigStep {
    /// Store provider and model.
    StoreSettings,
    /// Store the key that came with them.
    StoreKey,
    /// Ask the helper process that serves the old model to shut down.
    ShutDownSidecar,
}

/// What is done, in order, when new model settings come in: the
/// settings are stored, then the key if one is to be stored, and last
/// the helper process is asked to shut down.
pub open spec fn config_steps(api_key: Option<String>) -> Seq<ConfigStep> {
    if api_key matches Some(key) && key@.len() > 0 {
        seq![ConfigStep::StoreSettings, ConfigStep::StoreKey, ConfigStep::ShutDownSidecar]
    } else {
        seq![ConfigStep::StoreSettings, ConfigStep::ShutDownSidecar]
    }
}

impl ConfigStep {
    /// Whether a failure of this step fails the whole request. Storing
    /// must succeed; the shutdown is asked for on a best-effort basis
    /// and never fails the caller.
    pub fn must_succeed(self) -> (b: bool)
        ensures
            b == (self != ConfigStep::ShutDownSidecar),
    {
        match self {
            ConfigStep::StoreSettings => true,
            ConfigStep::StoreKey => true,
            ConfigStep::ShutDownSidecar => false,
        }
    }
}

/// What is done, in order, when new model settings come in.
pub fn model_config_steps(api_key: &Option<String>) -> (steps: Vec<ConfigStep>)
    ensures
        steps@ == config_steps(*api_key),
{
    let mut steps: Vec<ConfigStep> = Vec::new();
    steps.push(ConfigStep::StoreSettings);
    if wants_key_stored(api_key) {
        steps.push(ConfigStep::StoreKey);
    }
    steps.push(ConfigStep::ShutDownSidecar);
    assert(steps@ =~= config_steps(*api_key));
    steps
}

/// The request methods that are passed on to the server.
#[derive(Clone, Copy, Debug, PartialEq, Eq, Structural)]
pub enum HttpMethod {
    Get,
    Post,
    Put,
    Delete,
}

/// The method that `upper`, a name already in upper case, stands for.
pub open spec fn method_spelled(upper: Seq<char>) -> Option<HttpMethod> {
    if upper == "GET"@ {
        Some(HttpMethod::Get)
    } else if upper == "POST"@ {
        Some(HttpMethod::Post)
    } else if upper == "PUT"@ {
        Some(HttpMethod::Put)
    } else if upper == "DELETE"@ {
        Some(HttpMethod::Delete)
    } else {
        None
    }
}

/// The method that `name` stands for, whatever its case.
pub open spec fn method_named(name: Seq<char>) -> Option<HttpMethod> {
    method_spelled(uppercased(name))
}

impl HttpMethod {
    /// The method that `upper`, a name already in upper case, stands
    /// for, if it is one that is passed on.
    pub fn spelled(upper: &str) -> (method: Option<HttpMethod>)
        ensures
            method == method_spelled(upper@),
    {
        if text_eq(upper, "GET") {
            Some(HttpMethod::Get)
        } else if text_eq(upper, "POST") {
            Some(HttpMethod::Post)
        } else if text_eq(upper, "PUT") {
            Some(HttpMethod::Put)
        } else if text_eq(upper, "DELETE") {
            Some(HttpMethod::Delete)
        } else {
            None
        }
    }

    /// The method that `name` stands for, whatever its case, if it is
    /// one that is passed on.
    pub fn parse(name: &str) -> (method: Option<HttpMethod>)
        ensures
            method == method_named(name@),
    {
        let upper = uppercase(name);
        HttpMethod::spelled(upper.as_str())
    }
}

/// The address of a request: the server's address followed by the path.
pub fn request_url(server: &str, endpoint: &str) -> (url: String)
    ensures
        url@ == server@ + endpoint@,
{
    let mut url: String = server.to_owned();
    url.append(endpoint);
    url
}

/// The value of the authorization header for `token`.
pub fn bearer(token: &str) -> (value: String)
    ensures
        value@ == "Bearer "@ + token@,
{
    let mut value: String = "Bearer ".to_owned();
    value.append(token);
    value
}

} // verus!
