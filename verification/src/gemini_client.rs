//! The standalone Gemini client: the calls it makes, with its own timeout.
use vstd::prelude::*;

use crate::cloud_providers::gemini::{gemini_call, is_gemini_call, opt_chars, GeminiCall};
use crate::cloud_providers::{is_empty_mono_16k_wav, silent_wav_is_empty_wav};
use crate::encoding::{base64_decode, base64_round_trip};
use crate::cloud_providers::{silent_wav, silent_wav_bytes};

verus! {

/// Seconds that a call of this client may take before it gives up.
pub const CLIENT_TIMEOUT_SECS: u64 = 60;

/// The `generateContent` call that transcribes `wav_bytes`; `prompt`, if
/// any, becomes the system instruction (post-processing mode), else the
/// transcription is plain.
pub fn gemini_api_call(api_key: &str, model: &str, wav_bytes: &[u8], prompt: Option<String>) -> (c:
    GeminiCall)
    requires
        wav_bytes@.len() <= isize::MAX,
    ensures
        is_gemini_call(c, api_key@, model@, wav_bytes@, opt_chars(prompt), CLIENT_TIMEOUT_SECS),
{
    gemini_call(api_key, model, wav_bytes, prompt, CLIENT_TIMEOUT_SECS)
}

/// The minimal call that checks an API key and model: the silent WAV, no
/// system instruction.
pub fn connection_test_call(api_key: &str, model: &str) -> (c: GeminiCall)
    ensures
        is_gemini_call(c, api_key@, model@, silent_wav_bytes(), None, CLIENT_TIMEOUT_SECS),
{
    let wav = silent_wav();
    gemini_call(api_key, model, wav.as_slice(), None, CLIENT_TIMEOUT_SECS)
}

/// The connection test sends exactly one audio part, with no instruction,
/// and it decodes to the 44-byte silent WAV: 16 kHz, mono, 16-bit PCM, no
/// samples.
pub proof fn connection_test_sends_silent_wav(c: GeminiCall, api_key: Seq<char>, model: Seq<char>)
    requires
        is_gemini_call(c, api_key, model, silent_wav_bytes(), None, CLIENT_TIMEOUT_SECS),
    ensures
        c.request.system_instruction is None,
        c.request.contents@.len() == 1,
        c.request.contents@[0].parts@[1].inline_data matches Some(d) && base64_decode(d.data@)
            == silent_wav_bytes() && base64_decode(d.data@).len() == 44 && is_empty_mono_16k_wav(
            base64_decode(d.data@),
        ),
{
    base64_round_trip(silent_wav_bytes());
    silent_wav_is_empty_wav();
}

} // verus!
