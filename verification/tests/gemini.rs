use cloud_transcription::cloud_providers::build_system_prompt;
use cloud_transcription::cloud_providers::gemini::{
    build_generate_request, gemini_outcome, gemini_url, resolve_prompt, response_text, Candidate,
    ContentResponse, GeminiApiError, GenerateContentResponse, PartResponse, GEMINI_TIMEOUT_SECS,
    TRANSCRIBE_INSTRUCTION,
};
use cloud_transcription::cloud_providers::{
    silent_wav, CloudProvider, TranscriptionRequest,
};
use cloud_transcription::cloud_providers::gemini::GeminiProvider;
use cloud_transcription::gemini_client::{connection_test_call, gemini_api_call, CLIENT_TIMEOUT_SECS};
use cloud_transcription::settings::{get_default_settings, LLMPrompt, GEMINI_PROMPT_ID};

const SILENT_WAV_BASE64: &str = "UklGRiQAAABXQVZFZm10IBAAAAABAAEAgD4AAAB9AAACABAAZGF0YQAAAAA=";

/// Verify that post_process=false produces no system instruction (plain transcription).
#[test]
fn prompt_is_none_when_post_process_false() {
    let settings = get_default_settings();
    let prompt = if false {
        settings
            .post_process_prompts
            .iter()
            .find(|p| p.id == GEMINI_PROMPT_ID)
            .map(|p| build_system_prompt(&p.prompt))
            .filter(|p| !p.is_empty())
    } else {
        None
    };
    assert!(
        prompt.is_none(),
        "post_process=false must not produce a prompt"
    );
}

/// Verify that post_process=true resolves the Gemini prompt as system instruction.
#[test]
fn prompt_is_some_when_post_process_true() {
    let settings = get_default_settings();
    let prompt = if true {
        settings
            .post_process_prompts
            .iter()
            .find(|p| p.id == GEMINI_PROMPT_ID)
            .map(|p| build_system_prompt(&p.prompt))
            .filter(|p| !p.is_empty())
    } else {
        None
    };
    assert!(prompt.is_some(), "post_process=true must produce a prompt");
    let text = prompt.unwrap();
    assert!(
        !text.contains("${output}"),
        "prompt must strip ${{output}} placeholder"
    );
    assert!(
        text.contains("transcription"),
        "prompt should mention transcription"
    );
}

/// Verify that post_process=true with empty prompts produces None (no crash).
#[test]
fn prompt_is_none_when_gemini_prompt_missing() {
    let mut settings = get_default_settings();
    // Remove all prompts
    settings.post_process_prompts.clear();
    let prompt = if true {
        settings
            .post_process_prompts
            .iter()
            .find(|p| p.id == GEMINI_PROMPT_ID)
            .map(|p| build_system_prompt(&p.prompt))
            .filter(|p| !p.is_empty())
    } else {
        None
    };
    assert!(
        prompt.is_none(),
        "missing prompt should produce None, not crash"
    );
}

/// Verify that post_process=true with empty prompt text produces None.
#[test]
fn prompt_is_none_when_gemini_prompt_empty() {
    let mut settings = get_default_settings();
    // Replace Gemini prompt with empty text
    if let Some(p) = settings
        .post_process_prompts
        .iter_mut()
        .find(|p| p.id == GEMINI_PROMPT_ID)
    {
        p.prompt = String::new();
    }
    let prompt = if true {
        settings
            .post_process_prompts
            .iter()
            .find(|p| p.id == GEMINI_PROMPT_ID)
            .map(|p| build_system_prompt(&p.prompt))
            .filter(|p| !p.is_empty())
    } else {
        None
    };
    assert!(prompt.is_none(), "empty prompt text should produce None");
}

fn prompt(id: &str, text: &str) -> LLMPrompt {
    LLMPrompt { id: id.to_string(), name: String::new(), prompt: text.to_string() }
}

#[test]
fn resolve_prompt_follows_post_process_flag() {
    let settings = get_default_settings();
    assert_eq!(resolve_prompt(false, &settings.post_process_prompts), None);
    let p = resolve_prompt(true, &settings.post_process_prompts).unwrap();
    assert!(p.starts_with("You are a transcription assistant."));
    assert!(p.ends_with("nothing else."));
    assert!(!p.contains("${output}"));
}

#[test]
fn resolve_prompt_takes_first_gemini_prompt_and_strips_it() {
    let prompts = vec![
        prompt("other", "ignore me"),
        prompt(GEMINI_PROMPT_ID, "  Write ${output} in capitals \n"),
        prompt(GEMINI_PROMPT_ID, "second"),
    ];
    assert_eq!(resolve_prompt(true, &prompts), Some("Write  in capitals".to_string()));
    let blank = vec![prompt(GEMINI_PROMPT_ID, " ${output}\t"), prompt(GEMINI_PROMPT_ID, "x")];
    assert_eq!(resolve_prompt(true, &blank), None);
}

#[test]
fn build_system_prompt_examples() {
    assert_eq!(build_system_prompt("  Hello ${output}  "), "Hello");
    assert_eq!(build_system_prompt("${output}${output}"), "");
    assert_eq!(build_system_prompt("a${output}b${outpu}c"), "ab${outpu}c");
    assert_eq!(build_system_prompt("\u{3000}x\u{a0}"), "x");
    // A placeholder that a removal joins together is taken out as well.
    assert_eq!(build_system_prompt("$${output}{output}"), "");
    assert_eq!(build_system_prompt("plain"), "plain");
}

#[test]
fn gemini_url_for_model() {
    assert_eq!(
        gemini_url("gemini-2.0-flash"),
        "https://generativelanguage.googleapis.com/v1beta/models/gemini-2.0-flash:generateContent"
    );
}

#[test]
fn generate_request_without_prompt() {
    let r = build_generate_request(&silent_wav(), None);
    assert!(r.system_instruction.is_none());
    assert_eq!(r.contents.len(), 1);
    let parts = &r.contents[0].parts;
    assert_eq!(parts.len(), 2);
    assert_eq!(parts[0].text.as_deref(), Some(TRANSCRIBE_INSTRUCTION));
    assert!(parts[0].inline_data.is_none());
    assert!(parts[1].text.is_none());
    let data = parts[1].inline_data.as_ref().unwrap();
    assert_eq!(data.mime_type, "audio/wav");
    assert_eq!(data.data, SILENT_WAV_BASE64);
}

#[test]
fn generate_request_with_prompt() {
    let r = build_generate_request(b"hi", Some("Be brief".to_string()));
    let si = r.system_instruction.unwrap();
    assert_eq!(si.parts.len(), 1);
    assert_eq!(si.parts[0].text.as_deref(), Some("Be brief"));
    assert!(si.parts[0].inline_data.is_none());
    assert_eq!(r.contents[0].parts[1].inline_data.as_ref().unwrap().data, "aGk=");
}

fn response(candidates: Vec<Vec<Option<&str>>>) -> GenerateContentResponse {
    GenerateContentResponse {
        candidates: candidates
            .into_iter()
            .map(|parts| Candidate {
                content: ContentResponse {
                    parts: parts
                        .into_iter()
                        .map(|t| PartResponse { text: t.map(|s| s.to_string()) })
                        .collect(),
                },
            })
            .collect(),
    }
}

#[test]
fn response_text_reads_first_part_of_first_candidate() {
    assert_eq!(response_text(&response(vec![vec![Some("hello"), Some("x")], vec![Some("y")]])), "hello");
    assert_eq!(response_text(&response(vec![])), "");
    assert_eq!(response_text(&response(vec![vec![]])), "");
    assert_eq!(response_text(&response(vec![vec![None, Some("x")]])), "");
}

#[test]
fn gemini_provider_requests() {
    let mut settings = get_default_settings();
    settings.gemini_api_key = "key".to_string();
    let provider = GeminiProvider;
    assert_eq!(provider.id(), "gemini");
    match provider.transcription_request(b"hi".to_vec(), true, &settings) {
        TranscriptionRequest::Gemini(c) => {
            assert_eq!(c.api_key, "key");
            assert_eq!(c.timeout_secs, GEMINI_TIMEOUT_SECS);
            assert!(c.url.ends_with("/gemini-2.0-flash:generateContent"));
            assert!(c.request.system_instruction.is_some());
        }
        TranscriptionRequest::OpenAi(_) => panic!("wrong provider"),
    }
    match provider.transcription_request(b"hi".to_vec(), false, &settings) {
        TranscriptionRequest::Gemini(c) => assert!(c.request.system_instruction.is_none()),
        TranscriptionRequest::OpenAi(_) => panic!("wrong provider"),
    }
    match provider.connection_test_request(&settings) {
        TranscriptionRequest::Gemini(c) => {
            assert!(c.request.system_instruction.is_none());
            let data = c.request.contents[0].parts[1].inline_data.as_ref().unwrap();
            assert_eq!(data.data, SILENT_WAV_BASE64);
        }
        TranscriptionRequest::OpenAi(_) => panic!("wrong provider"),
    }
}

#[test]
fn client_calls_use_their_own_timeout() {
    let c = gemini_api_call("k", "m", b"hi", Some("p".to_string()));
    assert_eq!(c.timeout_secs, CLIENT_TIMEOUT_SECS);
    assert_eq!(c.timeout_secs, 60);
    assert_eq!(c.url, "https://generativelanguage.googleapis.com/v1beta/models/m:generateContent");
    let t = connection_test_call("k", "m");
    assert!(t.request.system_instruction.is_none());
    assert_eq!(t.request.contents[0].parts[1].inline_data.as_ref().unwrap().data, SILENT_WAV_BASE64);
}

#[test]
fn gemini_outcome_cases() {
    match gemini_outcome(404, "not here".to_string(), Err("x".to_string())) {
        Err(GeminiApiError::Status { status, body }) => {
            assert_eq!(status, 404);
            assert_eq!(body, "not here");
        }
        _ => panic!("expected a status error"),
    }
    let long: String = "é".repeat(400);
    match gemini_outcome(200, long, Err("bad json".to_string())) {
        Err(GeminiApiError::BadResponse { message, body_excerpt }) => {
            assert_eq!(message, "bad json");
            assert_eq!(body_excerpt, "é".repeat(150));
        }
        _ => panic!("expected a parse error"),
    }
    let mixed = format!("é{}", "a".repeat(400));
    match gemini_outcome(200, mixed, Err("m".to_string())) {
        Err(GeminiApiError::BadResponse { body_excerpt, .. }) => {
            assert_eq!(body_excerpt.len(), 300);
            assert_eq!(body_excerpt.chars().count(), 299);
        }
        _ => panic!("expected a parse error"),
    }
    let cut = format!("a{}", "é".repeat(200));
    match gemini_outcome(200, cut, Err("m".to_string())) {
        Err(GeminiApiError::BadResponse { body_excerpt, .. }) => {
            assert_eq!(body_excerpt, format!("a{}", "é".repeat(149)));
        }
        _ => panic!("expected a parse error"),
    }
    match gemini_outcome(200, "{}".to_string(), Err("m".to_string())) {
        Err(GeminiApiError::BadResponse { body_excerpt, .. }) => assert_eq!(body_excerpt, "{}"),
        _ => panic!("expected a parse error"),
    }
    match gemini_outcome(200, String::new(), Ok(response(vec![vec![Some("done")]]))) {
        Ok(t) => assert_eq!(t, "done"),
        _ => panic!("expected the text"),
    }
}

#[test]
fn system_prompt_never_keeps_the_placeholder() {
    for t in ["$${output}{output}", "$$${output}{output}{output}", "${${output}output}", " ${output} "] {
        assert!(!build_system_prompt(t).contains("${output}"));
    }
}
