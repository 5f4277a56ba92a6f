//! Making a transcription engine ready: which model is wanted, and what
//! has to happen before it is loaded.
//!
//! The engines live outside this crate. What the host has found out so
//! far is handed in as [`EngineFacts`]; the answer is either a verdict or
//! the next thing to do. The order is fixed: the handle must exist; the
//! wanted model is the one asked for, else the stored one, else the
//! default of the engine; if another model or none is loaded, the models
//! at hand are discovered first and the wanted one is loaded after that,
//! whether or not discovery went well.

use crate::error::{EngineError, EngineKind};
use crate::text::{optional_string, optional_text, text_eq};
use vstd::prelude::*;

verus! {

/// The stored transcription settings: which provider, which model.
#[derive(Clone, Debug, PartialEq, Eq)]
pub struct StoredSettings {
    pub provider: String,
    pub model: String,
}

/// The model an engine uses when none is asked for and none is stored
/// for it.
pub open spec fn default_model(kind: EngineKind) -> Seq<char> {
    match kind {
        EngineKind::Whisper => "large-v3-turbo"@,
        EngineKind::Parakeet => "parakeet-tdt-0.6b-v3-int8"@,
    }
}

/// Whether settings stored for `provider` are meant for this engine.
pub open spec fn serves(kind: EngineKind, provider: Seq<char>) -> bool {
    match kind {
        EngineKind::Whisper => provider == "localWhisper"@ || provider == "whisper"@,
        EngineKind::Parakeet => provider == "parakeet"@,
    }
}

/// The engine that a provider name selects: Parakeet for the name
/// `parakeet`, Whisper for any other name and for none at all.
pub open spec fn engine_for(provider: Option<Seq<char>>) -> EngineKind {
    if provider == Some("parakeet"@) {
        EngineKind::Parakeet
    } else {
        EngineKind::Whisper
    }
}

/// The model that the stored settings name for an engine: the stored
/// model if the settings are meant for this engine, else its default.
pub open spec fn configured_model(kind: EngineKind, settings: Option<StoredSettings>) -> Seq<char> {
    match settings {
        Some(s) => if serves(kind, s.provider@) {
            s.model@
        } else {
            default_model(kind)
        },
        None => default_model(kind),
    }
}

/// Whether a model has to be loaded: none is loaded, or another one.
pub open spec fn must_load(current: Option<Seq<char>>, target: Seq<char>) -> bool {
    current != Some(target)
}

impl EngineKind {
    /// The engine that a provider name selects.
    pub fn from_provider(provider: Option<&str>) -> (kind: EngineKind)
        ensures
            kind == engine_for(optional_text(provider)),
    {
        match provider {
            Some(p) => if text_eq(p, "parakeet") {
                EngineKind::Parakeet
            } else {
                EngineKind::Whisper
            },
            None => EngineKind::Whisper,
        }
    }

    /// The model this engine uses when no other is named.
    pub fn default_model(self) -> (model: &'static str)
        ensures
            model@ == default_model(self),
    {
        match self {
            EngineKind::Whisper => "large-v3-turbo",
            EngineKind::Parakeet => "parakeet-tdt-0.6b-v3-int8",
        }
    }

    /// Whether settings stored for `provider` are meant for this engine.
    pub fn serves(self, provider: &str) -> (b: bool)
        ensures
            b == serves(self, provider@),
    {
        match self {
            EngineKind::Whisper => text_eq(provider, "localWhisper") || text_eq(provider, "whisper"),
            EngineKind::Parakeet => text_eq(provider, "parakeet"),
        }
    }
}

/// The model that the stored settings name for an engine.
pub fn get_configured_model(kind: EngineKind, settings: &Option<StoredSettings>) -> (model: String)
    ensures
        model@ == configured_model(kind, *settings),
{
    match settings {
        Some(s) => if kind.serves(s.provider.as_str()) {
            s.model.clone()
        } else {
            kind.default_model().to_owned()
        },
        None => kind.default_model().to_owned(),
    }
}

/// Whether a model has to be loaded: none is loaded, or another one.
pub fn needs_load(current: &Option<String>, target: &str) -> (b: bool)
    ensures
        b == must_load(optional_string(*current), target@),
{
    match current {
        Some(loaded) => !text_eq(loaded.as_str(), target),
        None => true,
    }
}

/// Whether an engine is needed at all: only if there is speech to
/// transcribe.
pub fn engine_required(segment_count: usize) -> (b: bool)
    ensures
        b == (segment_count > 0),
{
    segment_count > 0
}

/// What the host has found out about an engine so far. `None` stands for
/// "not done yet".
#[derive(Clone, Debug, PartialEq, Eq)]
pub struct EngineFacts {
    /// Whether a handle for the engine was set up at process start.
    pub handle_present: bool,
    /// The stored settings, if any, or why they could not be read.
    pub settings: Option<Result<Option<StoredSettings>, String>>,
    /// The model that is loaded now, if any.
    pub current_model: Option<Option<String>>,
    /// Whether discovery of the models at hand has been tried. How it
    /// went is of no account.
    pub discovery_attempted: bool,
    /// How loading the wanted model went.
    pub load: Option<Result<(), String>>,
}

/// Something the host is asked to do for an engine.
#[derive(Clone, Debug, PartialEq, Eq)]
pub enum EngineRequest {
    ReadSettings,
    ReadCurrentModel,
    DiscoverModels,
    LoadModel { model: String },
}

/// The answer to a request to make an engine ready.
#[derive(Clone, Debug, PartialEq, Eq)]
pub enum EngineVerdict {
    /// Not decided yet: do this and ask again.
    Need(EngineRequest),
    /// The engine has `model` loaded.
    Ready { model: String },
    Failed(EngineError),
}

/// The model that is wanted: the one asked for, else the one the stored
/// settings name for the engine.
pub open spec fn target_model(
    kind: EngineKind,
    requested: Option<Seq<char>>,
    settings: Option<StoredSettings>,
) -> Seq<char> {
    match requested {
        Some(m) => m,
        None => configured_model(kind, settings),
    }
}

/// Whether `verdict` is the right answer for an engine of which `facts`
/// are known, when the model `requested` was asked for.
///
/// The first of these that applies decides:
/// no handle: not initialized;
/// no model asked for and settings unread: read them; unreadable: fail;
/// loaded model unknown: read it; it is the wanted one: ready;
/// discovery not tried: discover; load not tried: load the wanted model;
/// load failed: fail, naming the model; otherwise ready.
pub open spec fn is_engine_verdict_for(
    verdict: EngineVerdict,
    kind: EngineKind,
    requested: Option<Seq<char>>,
    facts: EngineFacts,
) -> bool {
    if !facts.handle_present {
        verdict matches EngineVerdict::Failed(EngineError::NotInitialized { kind: k }) && k == kind
    } else {
        match (requested, facts.settings) {
            (None, None) => verdict == EngineVerdict::Need(EngineRequest::ReadSettings),
            (None, Some(Err(cause))) => verdict matches EngineVerdict::Failed(
                EngineError::ConfigUnavailable { cause: c },
            ) && c@ == cause@,
            _ => {
                let target = target_model(
                    kind,
                    requested,
                    match facts.settings {
                        Some(Ok(s)) => s,
                        _ => None,
                    },
                );
                match facts.current_model {
                    None => verdict == EngineVerdict::Need(EngineRequest::ReadCurrentModel),
                    Some(current) => if !must_load(optional_string(current), target) {
                        verdict matches EngineVerdict::Ready { model } && model@ == target
                    } else if !facts.discovery_attempted {
                        verdict == EngineVerdict::Need(EngineRequest::DiscoverModels)
                    } else {
                        match facts.load {
                            None => verdict matches EngineVerdict::Need(
                                EngineRequest::LoadModel { model },
                            ) && model@ == target,
                            Some(Err(cause)) => verdict matches EngineVerdict::Failed(
                                EngineError::LoadFailed { model, cause: c },
                            ) && model@ == target && c@ == cause@,
                            Some(Ok(_)) => verdict matches EngineVerdict::Ready { model } && model@
                                == target,
                        }
                    },
                }
            },
        }
    }
}

/// The host is only ever asked for what it has not done yet, so that a
/// host that does what it is asked gets its verdict after four requests
/// at most.
pub proof fn lemma_asks_only_for_the_unknown(
    verdict: EngineVerdict,
    kind: EngineKind,
    requested: Option<Seq<char>>,
    facts: EngineFacts,
)
    requires
        is_engine_verdict_for(verdict, kind, requested, facts),
    ensures
        verdict == EngineVerdict::Need(EngineRequest::ReadSettings) ==> facts.settings is None
            && requested is None,
        verdict == EngineVerdict::Need(EngineRequest::ReadCurrentModel)
            ==> facts.current_model is None,
        verdict == EngineVerdict::Need(EngineRequest::DiscoverModels)
            ==> !facts.discovery_attempted,
        verdict matches EngineVerdict::Need(EngineRequest::LoadModel { .. }) ==> facts.load is None
            && facts.discovery_attempted,
        !facts.handle_present ==> verdict is Failed,
{
}

/// Decides what has to happen next to have the engine `kind` ready with
/// the model `requested`, or with its stored or default model if none
/// is asked for.
pub fn ensure_loaded(kind: EngineKind, requested: Option<&str>, facts: &EngineFacts) -> (verdict:
    EngineVerdict)
    ensures
        is_engine_verdict_for(verdict, kind, optional_text(requested), *facts),
{
    if !facts.handle_present {
        return EngineVerdict::Failed(EngineError::NotInitialized { kind });
    }
    let target: String = match requested {
        Some(model) => model.to_owned(),
        None => match &facts.settings {
            None => {
                return EngineVerdict::Need(EngineRequest::ReadSettings);
            },
            Some(Err(cause)) => {
                return EngineVerdict::Failed(
                    EngineError::ConfigUnavailable { cause: cause.clone() },
                );
            },
            Some(Ok(settings)) => get_configured_model(kind, settings),
        },
    };
    let current: &Option<String> = match &facts.current_model {
        None => {
            return EngineVerdict::Need(EngineRequest::ReadCurrentModel);
        },
        Some(current) => current,
    };
    if !needs_load(current, target.as_str()) {
        return EngineVerdict::Ready { model: target };
    }
    if !facts.discovery_attempted {
        return EngineVerdict::Need(EngineRequest::DiscoverModels);
    }
    match &facts.load {
        None => EngineVerdict::Need(EngineRequest::LoadModel { model: target }),
        Some(Err(cause)) => EngineVerdict::Failed(
            EngineError::LoadFailed { model: target, cause: cause.clone() },
        ),
        Some(Ok(_)) => EngineVerdict::Ready { model: target },
    }
}

} // verus!
