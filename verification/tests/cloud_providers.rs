use cloud_transcription::cloud_providers::openai::{
    cloud_call, extra_params_from, form_fields, member_form_text, str_member, interpret_cloud_response, language_param,
    parse_extra_params, text_outcome, transcriptions_url, CloudApiError, JsonMember,
    OpenAiProvider, ParsedJson,
};
use cloud_transcription::cloud_providers::{
    build_system_prompt, is_cloud_model, is_success_status, provider_for_model, retry_delay_ms,
    silent_wav, CloudProvider, RetryAction, RetryState, TranscriptionRequest, MODEL_ID_CLOUD,
    MODEL_ID_GEMINI, RETRY_ATTEMPTS,
};
use cloud_transcription::settings::get_default_settings;
use cloud_transcription::text::{remove_all_str, str_eq, trim_end_char_str, trim_str};

#[test]
fn cloud_model_ids() {
    assert!(is_cloud_model("cloud"));
    assert!(is_cloud_model("gemini"));
    assert!(!is_cloud_model("whisper-small"));
    assert!(!is_cloud_model("Gemini"));
    assert!(!is_cloud_model(""));
}

#[test]
fn provider_for_model_matches_ids() {
    assert_eq!(provider_for_model(MODEL_ID_CLOUD).unwrap().id(), "cloud");
    assert_eq!(provider_for_model(MODEL_ID_GEMINI).unwrap().id(), "gemini");
    assert!(provider_for_model("parakeet").is_none());
}

#[test]
fn silent_wav_is_an_empty_16k_mono_wav() {
    let w = silent_wav();
    assert_eq!(w.len(), 44);
    assert_eq!(&w[0..4], b"RIFF");
    assert_eq!(u32::from_le_bytes([w[4], w[5], w[6], w[7]]), 36);
    assert_eq!(&w[8..16], b"WAVEfmt ");
    assert_eq!(u32::from_le_bytes([w[24], w[25], w[26], w[27]]), 16000);
    assert_eq!(&w[36..40], b"data");
    assert_eq!(u32::from_le_bytes([w[40], w[41], w[42], w[43]]), 0);
}

#[test]
fn success_statuses() {
    assert!(is_success_status(200));
    assert!(is_success_status(299));
    assert!(!is_success_status(199));
    assert!(!is_success_status(300));
    assert!(!is_success_status(404));
}

fn drive(outcomes: Vec<Result<String, String>>) -> (Result<String, String>, Vec<u64>) {
    let mut delays = Vec::new();
    let (mut state, mut action) = RetryState::start::<String>();
    let mut outcomes = outcomes.into_iter();
    loop {
        match action {
            RetryAction::Attempt { delay_ms } => {
                delays.push(delay_ms);
                let (s, a) = state.record(outcomes.next().unwrap());
                state = s;
                action = a;
            }
            RetryAction::Finish(r) => return (r, delays),
        }
    }
}

#[test]
fn retry_returns_first_success() {
    let (r, delays) = drive(vec![Err("a".into()), Ok("text".into()), Err("c".into())]);
    assert_eq!(r, Ok("text".to_string()));
    assert_eq!(delays, vec![0, 300]);
    let (r, delays) = drive(vec![Ok("now".into())]);
    assert_eq!(r, Ok("now".to_string()));
    assert_eq!(delays, vec![0]);
}

#[test]
fn retry_gives_up_after_three_failures_with_last_error() {
    let (r, delays) = drive(vec![Err("a".into()), Err("b".into()), Err("c".into()), Ok("late".into())]);
    assert_eq!(r, Err("c".to_string()));
    assert_eq!(delays, vec![0, 300, 800]);
    assert_eq!(RETRY_ATTEMPTS, 3);
    assert_eq!(retry_delay_ms(2), 800);
}

#[test]
fn extra_params_parsing() {
    assert!(parse_extra_params("").is_none());
    assert!(parse_extra_params("   \n").is_none());
    assert!(parse_extra_params("not json").is_none());
    assert!(parse_extra_params("[1, 2]").is_none());
    assert!(parse_extra_params("\"text\"").is_none());
    let ms = parse_extra_params(
        "  {\"temperature\": 0, \"prompt\": \"hi\", \"opts\": {\"a\": true}, \"l\": [1, 2], \"n\": null, \"b\": false} ",
    )
    .unwrap();
    // serde_json's map keeps its members in key order.
    let keys: Vec<&str> = ms.iter().map(|(k, _)| k.as_str()).collect();
    assert_eq!(keys, vec!["b", "l", "n", "opts", "prompt", "temperature"]);
    let texts: Vec<String> = ms.iter().map(|(_, v)| member_form_text(v)).collect();
    assert_eq!(texts, vec!["false", "[1,2]", "null", "{\"a\":true}", "hi", "0"]);
    assert!(matches!(ms[0].1, JsonMember::Bool(false)));
    assert!(matches!(ms[1].1, JsonMember::Array(_)));
    assert!(matches!(ms[2].1, JsonMember::Null));
    assert!(matches!(ms[3].1, JsonMember::Object(_)));
    assert!(matches!(ms[4].1, JsonMember::Str(_)));
    assert!(matches!(ms[5].1, JsonMember::Number(_)));
}

#[test]
fn language_selection() {
    assert_eq!(language_param("auto"), None);
    assert_eq!(language_param("de"), Some("de".to_string()));
    assert_eq!(language_param("Auto"), Some("Auto".to_string()));
}

#[test]
fn transcription_endpoint() {
    assert_eq!(transcriptions_url("https://api.openai.com/v1"), "https://api.openai.com/v1/audio/transcriptions");
    assert_eq!(transcriptions_url("https://host/v1//"), "https://host/v1/audio/transcriptions");
    assert_eq!(transcriptions_url(""), "/audio/transcriptions");
}

fn field_pairs(fields: &[cloud_transcription::cloud_providers::openai::FormField]) -> Vec<(String, String)> {
    fields.iter().map(|f| (f.name.clone(), f.value.clone())).collect()
}

#[test]
fn form_fields_in_order() {
    let extra = vec![
        ("model".to_string(), JsonMember::Str("other".to_string())),
        ("temperature".to_string(), JsonMember::Number("0.5".to_string())),
        ("stream".to_string(), JsonMember::Bool(true)),
    ];
    let fields = form_fields("whisper-1", Some("fr".to_string()), Some(extra));
    assert_eq!(
        field_pairs(&fields),
        vec![
            ("model".to_string(), "whisper-1".to_string()),
            ("response_format".to_string(), "json".to_string()),
            ("language".to_string(), "fr".to_string()),
            ("model".to_string(), "other".to_string()),
            ("temperature".to_string(), "0.5".to_string()),
            ("stream".to_string(), "true".to_string()),
        ]
    );
    let plain = form_fields("m", None, None);
    assert_eq!(
        field_pairs(&plain),
        vec![
            ("model".to_string(), "m".to_string()),
            ("response_format".to_string(), "json".to_string()),
        ]
    );
}

#[test]
fn cloud_call_carries_audio_and_key() {
    let c = cloud_call("https://h/v1/", "sk", "m", vec![1, 2, 3], None, None);
    assert_eq!(c.url, "https://h/v1/audio/transcriptions");
    assert_eq!(c.api_key, "sk");
    assert_eq!(c.audio, vec![1, 2, 3]);
    assert_eq!(c.file_name, "audio.wav");
    assert_eq!(c.mime_type, "audio/wav");
}

#[test]
fn cloud_response_outcomes() {
    match interpret_cloud_response(500, b"boom") {
        Err(CloudApiError::Status { status, body }) => {
            assert_eq!(status, 500);
            assert_eq!(body, "boom");
        }
        _ => panic!("expected a status error"),
    }
    assert!(matches!(interpret_cloud_response(200, b"<html>"), Err(CloudApiError::BadResponse)));
    assert!(matches!(interpret_cloud_response(200, b"{\"x\": 1}"), Err(CloudApiError::MissingText)));
    assert!(matches!(interpret_cloud_response(200, b"{\"text\": 5}"), Err(CloudApiError::MissingText)));
    assert!(matches!(interpret_cloud_response(200, b"[\"text\"]"), Err(CloudApiError::MissingText)));
    match interpret_cloud_response(200, b"{\"text\": \"hello world\"}") {
        Ok(t) => assert_eq!(t, "hello world"),
        _ => panic!("expected the text"),
    }
}

#[test]
fn openai_provider_requests() {
    let mut settings = get_default_settings();
    settings.selected_language = "en".to_string();
    settings.cloud_transcription_extra_params = "{\"prompt\": \"names\"}".to_string();
    let provider = OpenAiProvider;
    assert_eq!(provider.id(), "cloud");
    for post_process in [false, true] {
        match provider.transcription_request(vec![9], post_process, &settings) {
            TranscriptionRequest::OpenAi(c) => {
                assert_eq!(c.url, "https://api.openai.com/v1/audio/transcriptions");
                assert_eq!(c.audio, vec![9]);
                assert_eq!(
                    field_pairs(&c.fields),
                    vec![
                        ("model".to_string(), "whisper-1".to_string()),
                        ("response_format".to_string(), "json".to_string()),
                        ("language".to_string(), "en".to_string()),
                        ("prompt".to_string(), "names".to_string()),
                    ]
                );
            }
            TranscriptionRequest::Gemini(_) => panic!("wrong provider"),
        }
    }
    match provider.connection_test_request(&settings) {
        TranscriptionRequest::OpenAi(c) => {
            assert_eq!(c.audio, silent_wav());
            assert_eq!(c.fields.len(), 2);
        }
        TranscriptionRequest::Gemini(_) => panic!("wrong provider"),
    }
}

#[test]
fn text_helpers() {
    assert_eq!(trim_str(" \t a b \n"), "a b");
    assert_eq!(trim_str("\u{2003}x\u{205f}"), "x");
    assert_eq!(trim_str("\u{200b}x"), "\u{200b}x");
    assert_eq!(trim_str("   "), "");
    assert_eq!(remove_all_str("aXXbXXX", "XX"), "abX");
    assert_eq!(remove_all_str("abc", ""), "abc");
    assert_eq!(trim_end_char_str("a//", '/'), "a");
    assert!(str_eq("é", "é"));
    assert!(!str_eq("ab", "abc"));
    assert_eq!(build_system_prompt("x"), "x");
}

#[test]
fn error_body_is_decoded_lossily() {
    match interpret_cloud_response(401, b"bad \xff key") {
        Err(CloudApiError::Status { status, body }) => {
            assert_eq!(status, 401);
            assert_eq!(body, "bad \u{fffd} key");
        }
        _ => panic!("expected a status error"),
    }
}

#[test]
fn default_settings_values() {
    let s = get_default_settings();
    assert_eq!(s.selected_language, "auto");
    assert_eq!(s.gemini_model, "gemini-2.0-flash");
    assert_eq!(s.cloud_transcription_model, "whisper-1");
    assert_eq!(s.post_process_prompts.len(), 2);
    assert_eq!(s.post_process_prompts[1].id, cloud_transcription::settings::GEMINI_PROMPT_ID);
    assert!(s.post_process_prompts[1].prompt.contains("${output}"));
}

#[test]
fn extra_params_from_parsed_json() {
    assert!(extra_params_from(ParsedJson::Invalid).is_none());
    assert!(extra_params_from(ParsedJson::OtherValue).is_none());
    let ms = extra_params_from(ParsedJson::Object(vec![(
        "k".to_string(),
        JsonMember::Str("v".to_string()),
    )]))
    .unwrap();
    assert_eq!(ms.len(), 1);
    assert_eq!(ms[0].0, "k");
}

#[test]
fn text_outcome_cases() {
    assert!(matches!(text_outcome(None), Err(CloudApiError::BadResponse)));
    assert!(matches!(text_outcome(Some(None)), Err(CloudApiError::MissingText)));
    match text_outcome(Some(Some("t".to_string()))) {
        Ok(t) => assert_eq!(t, "t"),
        _ => panic!("expected the text"),
    }
}

#[test]
fn provider_for_model_builds_the_matching_request() {
    let settings = get_default_settings();
    let cloud = provider_for_model("cloud").unwrap();
    assert!(matches!(cloud.transcription_request(vec![1], false, &settings), TranscriptionRequest::OpenAi(_)));
    let gemini = provider_for_model("gemini").unwrap();
    assert!(matches!(gemini.connection_test_request(&settings), TranscriptionRequest::Gemini(_)));
}

#[test]
fn string_member_lookup() {
    assert_eq!(str_member(&ParsedJson::Invalid, "text"), None);
    assert_eq!(str_member(&ParsedJson::OtherValue, "text"), Some(None));
    let parsed = ParsedJson::Object(vec![
        ("a".to_string(), JsonMember::Str("x".to_string())),
        ("text".to_string(), JsonMember::Str("hello".to_string())),
    ]);
    assert_eq!(str_member(&parsed, "text"), Some(Some("hello".to_string())));
    assert_eq!(str_member(&parsed, "b"), Some(None));
    let number = ParsedJson::Object(vec![("text".to_string(), JsonMember::Number("5".to_string()))]);
    assert_eq!(str_member(&number, "text"), Some(None));
}
