use audio_import::api::{
    bearer, request_url, wants_key_stored, ApiResponse, HttpMethod, Meeting, TranscriptConfig,
};

#[test]
fn settings_fall_back_to_parakeet() {
    assert_eq!(
        TranscriptConfig::fallback(),
        TranscriptConfig {
            provider: "parakeet".to_string(),
            model: "parakeet-tdt-0.6b-v3-int8".to_string(),
            api_key: None,
        }
    );
}

#[test]
fn stored_settings_come_before_the_fallback() {
    let stored = TranscriptConfig {
        provider: "whisper".to_string(),
        model: "base".to_string(),
        api_key: Some("k".to_string()),
    };
    assert_eq!(TranscriptConfig::or_fallback(Some(stored.clone())), stored);
    assert_eq!(TranscriptConfig::or_fallback(None), TranscriptConfig::fallback());
}

#[test]
fn only_a_key_that_is_not_empty_is_stored() {
    assert!(wants_key_stored(&Some("sk-1".to_string())));
    assert!(wants_key_stored(&Some(" ".to_string())));
    assert!(!wants_key_stored(&Some(String::new())));
    assert!(!wants_key_stored(&None));
}

#[test]
fn four_methods_are_passed_on() {
    assert_eq!(HttpMethod::parse("GET"), Some(HttpMethod::Get));
    assert_eq!(HttpMethod::parse("post"), Some(HttpMethod::Post));
    assert_eq!(HttpMethod::parse("Put"), Some(HttpMethod::Put));
    assert_eq!(HttpMethod::parse("dElEtE"), Some(HttpMethod::Delete));
    assert_eq!(HttpMethod::parse("po\u{17f}t"), Some(HttpMethod::Post));
    assert_eq!(HttpMethod::parse("PATCH"), None);
    assert_eq!(HttpMethod::parse("GET "), None);
    assert_eq!(HttpMethod::parse(""), None);
}

#[test]
fn method_in_upper_case_is_read_as_spelled() {
    assert_eq!(HttpMethod::spelled("GET"), Some(HttpMethod::Get));
    assert_eq!(HttpMethod::spelled("POST"), Some(HttpMethod::Post));
    assert_eq!(HttpMethod::spelled("PUT"), Some(HttpMethod::Put));
    assert_eq!(HttpMethod::spelled("DELETE"), Some(HttpMethod::Delete));
    assert_eq!(HttpMethod::spelled("get"), None);
    assert_eq!(HttpMethod::spelled("HEAD"), None);
}

#[test]
fn request_address_is_server_and_path() {
    assert_eq!(request_url("http://localhost:5167", "/get-profile"), "http://localhost:5167/get-profile");
    assert_eq!(request_url("", ""), "");
    assert_eq!(bearer("abc.def"), "Bearer abc.def");
}

#[test]
fn answer_envelope_carries_data_or_error() {
    let answer = ApiResponse {
        success: true,
        data: Some(Meeting { id: "meeting-1".to_string(), title: "Weekly".to_string() }),
        error: None,
    };
    assert_eq!(answer.clone(), answer);
    assert_eq!(answer.data.unwrap().title, "Weekly");
}
