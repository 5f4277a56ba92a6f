use std::path::PathBuf;

use audio_import::error::ValidationError;
use audio_import::units::Seconds;
use audio_import::validate::{
    audio_extensions, audio_file_name, is_listed_extension, is_supported_extension,
    judge_audio_file, path_parts, read_path, stored_audio_name, validate_audio_file,
    AudioFileInfo, FileFacts, PathParts, Probe, Verdict,
};

fn nothing_known() -> FileFacts {
    FileFacts { exists: None, size_bytes: None, decoded: None }
}

fn all_known() -> FileFacts {
    FileFacts {
        exists: Some(true),
        size_bytes: Some(Ok(4096)),
        decoded: Some(Ok(Seconds { thousandths: 61_250 })),
    }
}

fn parts(text: &str, extension: &str, stem: Option<&str>) -> PathParts {
    PathParts {
        text: text.to_string(),
        extension: extension.to_string(),
        format: extension.to_uppercase(),
        stem: stem.map(str::to_string),
    }
}

#[test]
fn supported_extensions_are_the_eight_audio_formats() {
    assert_eq!(
        audio_extensions(),
        vec!["mp4", "m4a", "wav", "mp3", "flac", "ogg", "aac", "wma"]
    );
}

#[test]
fn extensions_are_matched_without_regard_to_case() {
    for extension in audio_extensions() {
        assert!(is_listed_extension(extension));
        assert!(is_supported_extension(extension));
        assert!(is_supported_extension(&extension.to_uppercase()));
        assert!(!is_listed_extension(&extension.to_uppercase()));
    }
    assert!(is_supported_extension("Mp3"));
    assert!(is_supported_extension("fLaC"));
    assert!(!is_supported_extension("txt"));
    assert!(!is_supported_extension(""));
    assert!(!is_supported_extension("mp"));
    assert!(!is_supported_extension("mp33"));
    assert!(!is_supported_extension(".mp3"));
    assert!(!is_supported_extension("mp3 "));
    assert!(!is_supported_extension("\u{212a}p3"));
}

#[test]
fn unsupported_extension_is_rejected_and_never_decoded() {
    let every_fact = [
        nothing_known(),
        FileFacts { exists: Some(true), ..nothing_known() },
        FileFacts { exists: Some(true), size_bytes: Some(Ok(1)), decoded: None },
        FileFacts { exists: Some(true), size_bytes: Some(Err("denied".to_string())), decoded: None },
        all_known(),
    ];
    for extension in ["txt", "pdf", "", "mp3x", "MP3", "\u{e4}"] {
        for facts in &every_fact {
            let verdict = judge_audio_file(&parts("/in/file", extension, Some("file")), facts);
            assert_ne!(verdict, Verdict::Need(Probe::Decode));
            assert!(!matches!(verdict, Verdict::Accepted(_)));
            if facts.exists == Some(true) {
                assert_eq!(
                    verdict,
                    Verdict::Rejected(ValidationError::UnsupportedFormat {
                        extension: extension.to_string()
                    })
                );
            }
        }
    }
}

#[test]
fn unsupported_format_names_the_extension_in_lower_case() {
    let facts = FileFacts { exists: Some(true), ..nothing_known() };
    assert_eq!(
        validate_audio_file(&PathBuf::from("/in/notes.TXT"), &facts),
        Verdict::Rejected(ValidationError::UnsupportedFormat { extension: "txt".to_string() })
    );
    assert_eq!(
        validate_audio_file(&PathBuf::from("/in/notes.\u{c4}"), &facts),
        Verdict::Rejected(ValidationError::UnsupportedFormat { extension: "\u{e4}".to_string() })
    );
    assert_eq!(
        validate_audio_file(&PathBuf::from("/in/notes.\u{c9}T\u{c9}"), &facts),
        Verdict::Rejected(ValidationError::UnsupportedFormat {
            extension: "\u{e9}t\u{e9}".to_string()
        })
    );
    assert_eq!(
        validate_audio_file(&PathBuf::from("/in/notes"), &facts),
        Verdict::Rejected(ValidationError::UnsupportedFormat { extension: String::new() })
    );
}

#[test]
fn validation_asks_for_one_fact_after_another() {
    let name = parts("/in/a.wav", "wav", Some("a"));
    let mut facts = nothing_known();
    assert_eq!(judge_audio_file(&name, &facts), Verdict::Need(Probe::Existence));
    facts.exists = Some(true);
    assert_eq!(judge_audio_file(&name, &facts), Verdict::Need(Probe::Size));
    facts.size_bytes = Some(Ok(10));
    assert_eq!(judge_audio_file(&name, &facts), Verdict::Need(Probe::Decode));
    facts.decoded = Some(Ok(Seconds { thousandths: 2500 }));
    assert_eq!(
        judge_audio_file(&name, &facts),
        Verdict::Accepted(AudioFileInfo {
            path: "/in/a.wav".to_string(),
            filename: "a".to_string(),
            duration_seconds: Seconds { thousandths: 2500 },
            size_bytes: 10,
            format: "WAV".to_string(),
        })
    );
}

#[test]
fn missing_file_is_not_found() {
    let facts = FileFacts { exists: Some(false), ..all_known() };
    assert_eq!(
        judge_audio_file(&parts("/in/a.wav", "wav", Some("a")), &facts),
        Verdict::Rejected(ValidationError::NotFound { path: "/in/a.wav".to_string() })
    );
    assert_eq!(
        judge_audio_file(&parts("/in/a.txt", "txt", Some("a")), &facts),
        Verdict::Rejected(ValidationError::NotFound { path: "/in/a.txt".to_string() })
    );
}

#[test]
fn unreadable_file_is_rejected_before_decoding() {
    let facts = FileFacts {
        exists: Some(true),
        size_bytes: Some(Err("permission denied".to_string())),
        decoded: None,
    };
    assert_eq!(
        judge_audio_file(&parts("/in/a.ogg", "ogg", Some("a")), &facts),
        Verdict::Rejected(ValidationError::Unreadable { cause: "permission denied".to_string() })
    );
}

#[test]
fn undecodable_file_is_rejected() {
    let facts = FileFacts { decoded: Some(Err("no audio track".to_string())), ..all_known() };
    assert_eq!(
        judge_audio_file(&parts("/in/a.mp4", "mp4", Some("a")), &facts),
        Verdict::Rejected(ValidationError::DecodeFailed { cause: "no audio track".to_string() })
    );
}

#[test]
fn file_without_stem_gets_the_fallback_title() {
    match judge_audio_file(&parts("/in/.m4a", "m4a", None), &all_known()) {
        Verdict::Accepted(info) => assert_eq!(info.filename, "Imported Audio"),
        other => panic!("not accepted: {:?}", other),
    }
}

#[test]
fn path_is_taken_apart_by_the_platform() {
    assert_eq!(
        read_path(&PathBuf::from("/recordings/Team Sync.Mp3")),
        PathParts {
            text: "/recordings/Team Sync.Mp3".to_string(),
            extension: "mp3".to_string(),
            format: "MP3".to_string(),
            stem: Some("Team Sync".to_string()),
        }
    );
    assert_eq!(
        read_path(&PathBuf::from("notes.\u{c4}\u{df}")),
        PathParts {
            text: "notes.\u{c4}\u{df}".to_string(),
            extension: "\u{e4}\u{df}".to_string(),
            format: "\u{c4}SS".to_string(),
            stem: Some("notes".to_string()),
        }
    );
    assert_eq!(
        read_path(&PathBuf::from("/recordings/README")),
        PathParts {
            text: "/recordings/README".to_string(),
            extension: String::new(),
            format: String::new(),
            stem: Some("README".to_string()),
        }
    );
    assert_eq!(read_path(&PathBuf::from("/")).stem, None);
}

#[test]
fn file_is_accepted_by_its_path() {
    let verdict = validate_audio_file(&PathBuf::from("/recordings/Team Sync.Mp3"), &all_known());
    assert_eq!(
        verdict,
        Verdict::Accepted(AudioFileInfo {
            path: "/recordings/Team Sync.Mp3".to_string(),
            filename: "Team Sync".to_string(),
            duration_seconds: Seconds { thousandths: 61_250 },
            size_bytes: 4096,
            format: "MP3".to_string(),
        })
    );
}

#[test]
fn path_without_extension_is_unsupported() {
    assert_eq!(
        validate_audio_file(&PathBuf::from("/recordings/README"), &all_known()),
        Verdict::Rejected(ValidationError::UnsupportedFormat { extension: String::new() })
    );
    assert_eq!(
        validate_audio_file(&PathBuf::from("/recordings/archive.tar.GZ"), &all_known()),
        Verdict::Rejected(ValidationError::UnsupportedFormat { extension: "gz".to_string() })
    );
}

#[test]
fn path_validation_asks_for_existence_first() {
    assert_eq!(
        validate_audio_file(&PathBuf::from("/recordings/a.flac"), &nothing_known()),
        Verdict::Need(Probe::Existence)
    );
    assert_eq!(
        validate_audio_file(&PathBuf::from("/recordings/a.txt"), &nothing_known()),
        Verdict::Need(Probe::Existence)
    );
    let missing = FileFacts { exists: Some(false), ..nothing_known() };
    assert_eq!(
        validate_audio_file(&PathBuf::from("/recordings/a.flac"), &missing),
        Verdict::Rejected(ValidationError::NotFound { path: "/recordings/a.flac".to_string() })
    );
}

#[test]
fn parts_are_made_from_what_was_read() {
    assert_eq!(
        path_parts("/in/Talk.FLAC".to_string(), Some("FLAC".to_string()), Some("Talk".to_string())),
        PathParts {
            text: "/in/Talk.FLAC".to_string(),
            extension: "flac".to_string(),
            format: "FLAC".to_string(),
            stem: Some("Talk".to_string()),
        }
    );
    assert_eq!(
        path_parts("x".to_string(), None, None),
        PathParts {
            text: "x".to_string(),
            extension: String::new(),
            format: String::new(),
            stem: None,
        }
    );
    assert_eq!(
        path_parts("a".to_string(), Some("\u{c9}".to_string()), Some("b".to_string())),
        PathParts {
            text: "a".to_string(),
            extension: "\u{e9}".to_string(),
            format: "\u{c9}".to_string(),
            stem: Some("b".to_string()),
        }
    );
}

#[test]
fn stored_copy_is_named_after_the_extension() {
    assert_eq!(audio_file_name(Some("wav")), "audio.wav");
    assert_eq!(audio_file_name(Some("MP3")), "audio.MP3");
    assert_eq!(audio_file_name(None), "audio.mp4");
    assert_eq!(stored_audio_name(&PathBuf::from("/in/talk.flac")), "audio.flac");
    assert_eq!(stored_audio_name(&PathBuf::from("/in/Talk.FLAC")), "audio.FLAC");
    assert_eq!(stored_audio_name(&PathBuf::from("/in/talk")), "audio.mp4");
}

#[test]
fn validation_errors_read_as_messages() {
    assert_eq!(
        ValidationError::NotFound { path: "/in/a.wav".to_string() }.message(),
        "File does not exist: /in/a.wav"
    );
    assert_eq!(
        ValidationError::UnsupportedFormat { extension: "txt".to_string() }.message(),
        "Unsupported format: .txt. Supported: mp4, m4a, wav, mp3, flac, ogg, aac, wma"
    );
    assert_eq!(
        ValidationError::Unreadable { cause: "denied".to_string() }.message(),
        "Cannot read file: denied"
    );
    assert_eq!(
        ValidationError::DecodeFailed { cause: "bad header".to_string() }.message(),
        "bad header"
    );
}
