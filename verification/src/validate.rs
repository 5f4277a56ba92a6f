//! Deciding whether a file can be imported.
//!
//! Looking at the disk and decoding are the host's work. What has been
//! found out so far is handed in as [`FileFacts`]; the answer is either a
//! verdict or the next thing to find out. The order is fixed: existence,
//! then the extension, then the size, then a full decode. A file with an
//! unsupported extension is turned down before anything is decoded.

use crate::error::ValidationError;
use crate::text::{
    lowercase, lowercased, optional_string, optional_text, text_eq, uppercase, uppercased,
};
use crate::units::Seconds;
use std::path::PathBuf;
use vstd::prelude::*;

verus! {

/// A path of the file system, as the standard library holds it. Nothing
/// inside it is seen here.
#[verifier::external_type_specification]
#[verifier::external_body]
pub struct ExPathBuf(PathBuf);

/// The extensions that can be imported, in lower case.
pub open spec fn supported_extensions() -> Seq<Seq<char>> {
    seq!["mp4"@, "m4a"@, "wav"@, "mp3"@, "flac"@, "ogg"@, "aac"@, "wma"@]
}

/// Whether `lower`, an extension already in lower case, is one of the
/// supported ones.
pub open spec fn is_listed(lower: Seq<char>) -> bool {
    supported_extensions().contains(lower)
}

/// Whether `extension`, whatever its case, is one of the supported ones.
pub open spec fn is_supported(extension: Seq<char>) -> bool {
    is_listed(lowercased(extension))
}

/// The title given to a file whose name has no usable stem.
pub open spec fn fallback_title() -> Seq<char> {
    "Imported Audio"@
}

/// The supported extensions, in lower case.
pub fn audio_extensions() -> (list: Vec<&'static str>)
    ensures
        list@.len() == supported_extensions().len(),
        forall|i: int| 0 <= i < list@.len() ==> (#[trigger] list@[i])@ == supported_extensions()[i],
{
    let mut list: Vec<&'static str> = Vec::new();
    list.push("mp4");
    list.push("m4a");
    list.push("wav");
    list.push("mp3");
    list.push("flac");
    list.push("ogg");
    list.push("aac");
    list.push("wma");
    list
}

/// Whether `lower`, an extension already in lower case, is one of the
/// supported ones.
pub fn is_listed_extension(lower: &str) -> (b: bool)
    ensures
        b == is_listed(lower@),
{
    let list = audio_extensions();
    let mut i: usize = 0;
    while i < list.len()
        invariant
            i <= list@.len(),
            list@.len() == supported_extensions().len(),
            forall|k: int| 0 <= k < list@.len() ==> (#[trigger] list@[k])@ == supported_extensions()[k],
            forall|k: int| 0 <= k < i ==> supported_extensions()[k] != lower@,
        decreases list@.len() - i,
    {
        if text_eq(list[i], lower) {
            assert(supported_extensions()[i as int] == lower@);
            return true;
        }
        i += 1;
    }
    false
}

/// Whether `extension`, whatever its case, is one of the supported ones.
pub fn is_supported_extension(extension: &str) -> (b: bool)
    ensures
        b == is_supported(extension@),
{
    let lower = lowercase(extension);
    is_listed_extension(lower.as_str())
}

/// What is known of a file that was picked for import.
#[derive(Clone, Debug, PartialEq, Eq)]
pub struct AudioFileInfo {
    pub path: String,
    /// The file's name without its extension.
    pub filename: String,
    pub duration_seconds: Seconds,
    pub size_bytes: u64,
    /// The extension in upper case.
    pub format: String,
}

/// What the host has found out about a file so far. `None` stands for
/// "not looked at yet".
#[derive(Clone, Debug, PartialEq, Eq)]
pub struct FileFacts {
    /// Whether anything exists at the path.
    pub exists: Option<bool>,
    /// The file's size in bytes, or why it could not be read.
    pub size_bytes: Option<Result<u64, String>>,
    /// The decoded length of the audio, or why decoding failed.
    pub decoded: Option<Result<Seconds, String>>,
}

/// Something the host is asked to find out.
#[derive(Clone, Copy, Debug, PartialEq, Eq, Structural)]
pub enum Probe {
    Existence,
    Size,
    Decode,
}

/// The answer to a validation request.
#[derive(Clone, Debug, PartialEq, Eq)]
pub enum Verdict {
    /// Not decided yet: find this out and ask again.
    Need(Probe),
    Accepted(AudioFileInfo),
    Rejected(ValidationError),
}

/// What was read from the path of a file.
#[derive(Clone, Debug, PartialEq, Eq)]
pub struct PathParts {
    /// The path as text.
    pub text: String,
    /// The extension of the file name in lower case; empty if the name
    /// has none.
    pub extension: String,
    /// The extension in upper case.
    pub format: String,
    /// The file name without its extension, if it has one that is text.
    pub stem: Option<String>,
}

impl PathParts {
    /// Whether the parts hang together as parts of one path do: the
    /// extension is some text in lower case, and the format is the
    /// extension in upper case.
    pub open spec fn consistent(self) -> bool {
        &&& exists|raw: Seq<char>| self.extension@ == #[trigger] lowercased(raw)
        &&& self.format@ == uppercased(self.extension@)
    }
}

/// Whether `verdict` is the right answer for a file of whose path
/// `parts` were read and of which `facts` are known.
///
/// The first of these that applies decides:
/// existence unknown: ask for it; nothing there: not found, naming the
/// path;
/// extension not listed: unsupported format, naming the extension;
/// size unknown: ask for it; size unreadable: unreadable;
/// not decoded yet: ask for a decode; decode failed: decode failed;
/// otherwise the file is accepted.
pub open spec fn is_verdict_for(verdict: Verdict, parts: PathParts, facts: FileFacts) -> bool {
    match facts.exists {
        None => verdict == Verdict::Need(Probe::Existence),
        Some(false) => verdict matches Verdict::Rejected(ValidationError::NotFound { path })
            && path@ == parts.text@,
        Some(true) => if !is_listed(parts.extension@) {
            verdict matches Verdict::Rejected(ValidationError::UnsupportedFormat { extension: e })
                && e@ == parts.extension@
        } else {
            match facts.size_bytes {
                None => verdict == Verdict::Need(Probe::Size),
                Some(Err(cause)) => verdict matches Verdict::Rejected(
                    ValidationError::Unreadable { cause: c },
                ) && c@ == cause@,
                Some(Ok(size)) => match facts.decoded {
                    None => verdict == Verdict::Need(Probe::Decode),
                    Some(Err(cause)) => verdict matches Verdict::Rejected(
                        ValidationError::DecodeFailed { cause: c },
                    ) && c@ == cause@,
                    Some(Ok(duration)) => verdict matches Verdict::Accepted(info) && {
                        &&& info.path@ == parts.text@
                        &&& info.filename@ == match parts.stem {
                            Some(s) => s@,
                            None => fallback_title(),
                        }
                        &&& info.duration_seconds == duration
                        &&& info.size_bytes == size
                        &&& info.format@ == parts.format@
                    },
                },
            }
        },
    }
}

/// The host is only ever asked for what it has not found out yet, and
/// in a fixed order: the size only of a file that exists and has a
/// supported extension, a decode only of a file whose size was read.
pub proof fn lemma_probes_come_in_order(verdict: Verdict, parts: PathParts, facts: FileFacts)
    requires
        is_verdict_for(verdict, parts, facts),
    ensures
        verdict == Verdict::Need(Probe::Existence) <==> facts.exists is None,
        verdict == Verdict::Need(Probe::Size) ==> facts.exists == Some(true)
            && facts.size_bytes is None && is_listed(parts.extension@),
        verdict == Verdict::Need(Probe::Decode) ==> facts.exists == Some(true) && (
        facts.size_bytes matches Some(Ok(_))) && facts.decoded is None && is_listed(
            parts.extension@,
        ),
        verdict is Accepted ==> facts.exists == Some(true) && (facts.size_bytes matches Some(
            Ok(_),
        )) && (facts.decoded matches Some(Ok(_))) && is_listed(parts.extension@),
{
}

/// Decides on a file from what was read of its path and what is known
/// of it so far.
///
/// A file whose extension is not listed is never accepted and a decode
/// of it is never asked for, whatever the facts say; if it exists, it is
/// turned down as of an unsupported format.
pub fn judge_audio_file(parts: &PathParts, facts: &FileFacts) -> (verdict: Verdict)
    ensures
        is_verdict_for(verdict, *parts, *facts),
        !is_listed(parts.extension@) ==> !(verdict is Accepted) && verdict != Verdict::Need(
            Probe::Decode,
        ),
        facts.exists == Some(true) && !is_listed(parts.extension@) ==> verdict matches Verdict::Rejected(
            ValidationError::UnsupportedFormat { .. },
        ),
{
    match facts.exists {
        None => {
            return Verdict::Need(Probe::Existence);
        },
        Some(false) => {
            return Verdict::Rejected(ValidationError::NotFound { path: parts.text.clone() });
        },
        Some(true) => {},
    }
    if !is_listed_extension(parts.extension.as_str()) {
        return Verdict::Rejected(
            ValidationError::UnsupportedFormat { extension: parts.extension.clone() },
        );
    }
    let size: u64 = match &facts.size_bytes {
        None => {
            return Verdict::Need(Probe::Size);
        },
        Some(Err(cause)) => {
            return Verdict::Rejected(ValidationError::Unreadable { cause: cause.clone() });
        },
        Some(Ok(size)) => *size,
    };
    let duration: Seconds = match &facts.decoded {
        None => {
            return Verdict::Need(Probe::Decode);
        },
        Some(Err(cause)) => {
            return Verdict::Rejected(ValidationError::DecodeFailed { cause: cause.clone() });
        },
        Some(Ok(duration)) => *duration,
    };
    let filename: String = match &parts.stem {
        Some(s) => s.clone(),
        None => "Imported Audio".to_owned(),
    };
    Verdict::Accepted(
        AudioFileInfo {
            path: parts.text.clone(),
            filename,
            duration_seconds: duration,
            size_bytes: size,
            format: parts.format.clone(),
        },
    )
}

/// The supported extensions are told apart without regard to case: two
/// extensions with the same lower-case form are both supported or both
/// unsupported.
pub proof fn lemma_support_ignores_case(a: Seq<char>, b: Seq<char>)
    requires
        lowercased(a) == lowercased(b),
    ensures
        is_supported(a) == is_supported(b),
{
}

/// Calls `Path::to_string_lossy` of the standard library on `path` and
/// hands the text on. Trusted; nothing is claimed of the result.
#[verifier::external_body]
pub(crate) fn path_text(path: &PathBuf) -> (text: String) {
    path.to_string_lossy().into_owned()
}

/// Calls `Path::extension` of the standard library on `path` and hands
/// the extension on, if it is text. Trusted; nothing is claimed of the
/// result, since what counts as a file name differs between platforms.
#[verifier::external_body]
pub(crate) fn path_extension(path: &PathBuf) -> (extension: Option<String>) {
    path.extension().and_then(|e| e.to_str()).map(str::to_owned)
}

/// Calls `Path::file_stem` of the standard library on `path` and hands
/// the stem on, if it is text. Trusted; nothing is claimed of the
/// result.
#[verifier::external_body]
pub(crate) fn path_file_stem(path: &PathBuf) -> (stem: Option<String>) {
    path.file_stem().and_then(|s| s.to_str()).map(str::to_owned)
}

/// The extension that is folded: the one read, or the empty text if
/// none was read.
pub open spec fn extension_or_empty(extension: Option<String>) -> Seq<char> {
    match extension {
        Some(e) => e@,
        None => Seq::empty(),
    }
}

/// The parts of a path, from what the platform read of it: `text` is
/// the path as text, `extension` and `stem` are the extension and the
/// stem of the file name, where it has them and they are text.
///
/// The text and the stem are kept as they are. The extension is put in
/// lower case, a missing one counting as empty, and the format is that
/// lower-case extension in upper case.
pub fn path_parts(text: String, extension: Option<String>, stem: Option<String>) -> (parts:
    PathParts)
    ensures
        parts.text@ == text@,
        parts.extension@ == lowercased(extension_or_empty(extension)),
        parts.format@ == uppercased(parts.extension@),
        optional_string(parts.stem) == optional_string(stem),
        parts.consistent(),
{
    let lower = match &extension {
        Some(e) => lowercase(e.as_str()),
        None => {
            proof {
                reveal_strlit("");
                assert(""@ =~= Seq::<char>::empty());
            }
            lowercase("")
        },
    };
    let format = uppercase(lower.as_str());
    PathParts { text, extension: lower, format, stem }
}

/// Reads from `path` what a verdict on the file depends on: the parts
/// that [`path_parts`] makes of the path as text, the extension and the
/// stem that the platform reads from it.
pub fn read_path(path: &PathBuf) -> (parts: PathParts)
    ensures
        parts.consistent(),
{
    path_parts(path_text(path), path_extension(path), path_file_stem(path))
}

/// Decides on the file at `path` from what is known of it so far.
///
/// The parts of the path are read as the platform reads them; the
/// verdict is the one [`judge_audio_file`] gives for them. Whatever they
/// are, a file whose existence is unknown is probed for it, a file that
/// does not exist is not found, nothing is accepted before it was
/// decoded, and a file is turned down as of an unsupported format only
/// if the lower-case form of its extension is not listed.
pub fn validate_audio_file(path: &PathBuf, facts: &FileFacts) -> (verdict: Verdict)
    ensures
        exists|parts: PathParts| parts.consistent() && #[trigger] is_verdict_for(
            verdict,
            parts,
            *facts,
        ),
        facts.exists is None ==> verdict == Verdict::Need(Probe::Existence),
        facts.exists == Some(false) ==> verdict matches Verdict::Rejected(
            ValidationError::NotFound { .. },
        ),
        verdict is Accepted ==> (facts.decoded matches Some(Ok(_))),
        verdict matches Verdict::Rejected(ValidationError::UnsupportedFormat { extension })
            ==> !is_listed(extension@) && exists|raw: Seq<char>|
            extension@ == #[trigger] lowercased(raw),
{
    let parts = read_path(path);
    let verdict = judge_audio_file(&parts, facts);
    assert(parts.consistent() && is_verdict_for(verdict, parts, *facts));
    verdict
}

/// The name under which a copy of the audio is kept in the meeting
/// folder: `audio.` and the extension, or `mp4` if there is none.
pub open spec fn stored_name(extension: Option<Seq<char>>) -> Seq<char> {
    "audio."@ + match extension {
        Some(e) => e,
        None => "mp4"@,
    }
}

/// The name under which a copy of the audio is kept in the meeting
/// folder, from the extension of the source file.
pub fn audio_file_name(extension: Option<&str>) -> (name: String)
    ensures
        name@ == stored_name(optional_text(extension)),
{
    let mut name: String = "audio.".to_owned();
    match extension {
        Some(e) => name.append(e),
        None => name.append("mp4"),
    }
    name
}

/// The name under which a copy of the file at `path` is kept in the
/// meeting folder: [`audio_file_name`] of the extension that the
/// platform reads from the path.
pub fn stored_audio_name(path: &PathBuf) -> (name: String)
    ensures
        exists|extension: Option<Seq<char>>| name@ == stored_name(extension),
{
    let extension = path_extension(path);
    let ext: Option<&str> = match &extension {
        Some(e) => Some(e.as_str()),
        None => None,
    };
    let name = audio_file_name(ext);
    assert(name@ == stored_name(optional_text(ext)));
    name
}

} // verus!
