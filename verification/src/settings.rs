//! The part of the application settings that the cloud providers read.
use vstd::prelude::*;

verus! {

/// Identifier of the post-processing prompt that Gemini uses as its system
/// instruction.
pub const GEMINI_PROMPT_ID: &'static str = "default_gemini_transcription";

/// Identifier of the default post-processing prompt for other providers.
pub const IMPROVE_PROMPT_ID: &'static str = "default_improve_transcriptions";

/// A post-processing prompt; `${output}` in its text stands for the
/// transcription it is applied to.
pub struct LLMPrompt {
    pub id: String,
    pub name: String,
    pub prompt: String,
}

/// Settings read by the cloud transcription providers.
pub struct AppSettings {
    /// Language code of the recording, or `"auto"` to let the service detect it.
    pub selected_language: String,
    pub post_process_prompts: Vec<LLMPrompt>,
    pub cloud_transcription_base_url: String,
    pub cloud_transcription_api_key: String,
    pub cloud_transcription_model: String,
    /// Extra form fields for the OpenAI-compatible request, as a JSON object.
    pub cloud_transcription_extra_params: String,
    pub gemini_api_key: String,
    pub gemini_model: String,
}

/// The default Gemini system instruction template.
pub const DEFAULT_GEMINI_PROMPT: &'static str = "You are a transcription assistant. Transcribe the audio accurately. Fix capitalization, punctuation, and remove filler words (um, uh, like). Return only the transcription text, nothing else.\n\n${output}";

/// The default template for improving a finished transcription.
pub const DEFAULT_IMPROVE_PROMPT: &'static str = "Clean this transcript:\n1. Fix spelling, capitalization, and punctuation errors\n2. Convert number words to digits\n3. Remove filler words\n4. Keep the language in the original version\n\nPreserve exact meaning and word order. Do not paraphrase or reorder content.\n\nReturn only the cleaned transcript.\n\nTranscript:\n${output}";

/// Settings as they stand before the user changes anything.
pub fn get_default_settings() -> (s: AppSettings)
    ensures
        s.selected_language@ == "auto"@,
        s.post_process_prompts@.len() == 2,
        s.post_process_prompts@[0].id@ == IMPROVE_PROMPT_ID@,
        s.post_process_prompts@[0].name@ == "Improve Transcriptions"@,
        s.post_process_prompts@[0].prompt@ == DEFAULT_IMPROVE_PROMPT@,
        s.post_process_prompts@[1].id@ == GEMINI_PROMPT_ID@,
        s.post_process_prompts@[1].name@ == "Gemini Transcription"@,
        s.post_process_prompts@[1].prompt@ == DEFAULT_GEMINI_PROMPT@,
        s.cloud_transcription_base_url@ == "https://api.openai.com/v1"@,
        s.cloud_transcription_api_key@ == Seq::<char>::empty(),
        s.cloud_transcription_model@ == "whisper-1"@,
        s.cloud_transcription_extra_params@ == Seq::<char>::empty(),
        s.gemini_api_key@ == Seq::<char>::empty(),
        s.gemini_model@ == "gemini-2.0-flash"@,
{
    let improve = LLMPrompt {
        id: String::from_str(IMPROVE_PROMPT_ID),
        name: String::from_str("Improve Transcriptions"),
        prompt: String::from_str(DEFAULT_IMPROVE_PROMPT),
    };
    let gemini = LLMPrompt {
        id: String::from_str(GEMINI_PROMPT_ID),
        name: String::from_str("Gemini Transcription"),
        prompt: String::from_str(DEFAULT_GEMINI_PROMPT),
    };
    let mut prompts: Vec<LLMPrompt> = Vec::new();
    prompts.push(improve);
    prompts.push(gemini);
    AppSettings {
        selected_language: String::from_str("auto"),
        post_process_prompts: prompts,
        cloud_transcription_base_url: String::from_str("https://api.openai.com/v1"),
        cloud_transcription_api_key: String::new(),
        cloud_transcription_model: String::from_str("whisper-1"),
        cloud_transcription_extra_params: String::new(),
        gemini_api_key: String::new(),
        gemini_model: String::from_str("gemini-2.0-flash"),
    }
}

} // verus!
