//! Google Gemini (`generateContent`) provider: what goes into the request and
//! what is read back from the answer.
use vstd::prelude::*;

use super::{
    silent_wav, silent_wav_bytes, system_prompt, CloudProvider, TranscriptionRequest,
    build_system_prompt, system_prompt_of_plain_template, OUTPUT_PLACEHOLDER, is_empty_mono_16k_wav, silent_wav_is_empty_wav, is_success_status, system_prompt_is_trimmed, MODEL_ID_GEMINI,
};
use crate::settings::{AppSettings, LLMPrompt, GEMINI_PROMPT_ID};
use vstd::string::StringSliceAdditionalSpecFns;
use vstd::utf8::{encode_utf8, is_char_boundary};
use crate::encoding::{base64_decode, base64_round_trip, base64_standard};
use crate::text::{is_trimmed, occurs_in, str_eq};

verus! {

pub const GEMINI_BASE_URL: &'static str = "https://generativelanguage.googleapis.com/v1beta/models";

/// Seconds that a Gemini call may take before the client gives up.
pub const GEMINI_TIMEOUT_SECS: u64 = 30;

/// The user instruction that accompanies the audio.
pub const TRANSCRIBE_INSTRUCTION: &'static str = "Please transcribe this audio file. Provide only the transcribed text, with no introductory phrases, labels, or formatting.";

/// MIME type of the uploaded audio.
pub const AUDIO_MIME_TYPE: &'static str = "audio/wav";

// ---- Request types ----

pub struct InlineData {
    pub mime_type: String,
    pub data: String,
}

pub struct Part {
    pub text: Option<String>,
    pub inline_data: Option<InlineData>,
}

pub struct Content {
    pub parts: Vec<Part>,
}

pub struct SystemInstruction {
    pub parts: Vec<Part>,
}

pub struct GenerateContentRequest {
    pub system_instruction: Option<SystemInstruction>,
    pub contents: Vec<Content>,
}

// ---- Response types ----

pub struct PartResponse {
    pub text: Option<String>,
}

pub struct ContentResponse {
    pub parts: Vec<PartResponse>,
}

pub struct Candidate {
    pub content: ContentResponse,
}

pub struct GenerateContentResponse {
    pub candidates: Vec<Candidate>,
}

/// The characters of an optional string.
pub open spec fn opt_chars(o: Option<String>) -> Option<Seq<char>> {
    match o {
        Some(s) => Some(s@),
        None => None,
    }
}

/// Encodes with `base64::engine::general_purpose::STANDARD` (`Engine::encode`),
/// the standard alphabet with padding, which panics when the encoded length
/// (four characters for every started group of three bytes) overflows
/// `usize`; the contract states the encoding (`base64_standard`).
#[verifier::external_body]
fn encode_base64(bytes: &[u8]) -> (r: String)
    requires
        4 * ((bytes@.len() + 2) / 3) <= usize::MAX,
    ensures
        r@ == base64_standard(bytes@),
{
    base64::Engine::encode(&base64::engine::general_purpose::STANDARD, bytes)
}

/// The base64 text of an allocation (at most `isize::MAX` bytes) has a
/// length that fits in `usize`.
proof fn lemma_encoded_len_fits(n: nat)
    requires
        n <= isize::MAX,
    ensures
        4 * ((n + 2) / 3) <= usize::MAX,
{
    assert(4 * ((n + 2) / 3) <= 2 * n + 4) by (nonlinear_arith);
}

/// Whether `p` is a part that holds only the text `t`.
pub open spec fn is_text_part(p: Part, t: Seq<char>) -> bool {
    &&& p.text matches Some(s) && s@ == t
    &&& p.inline_data is None
}

/// Whether `p` is a part that holds only the WAV audio `audio`, inline and
/// base64-encoded.
pub open spec fn is_audio_part(p: Part, audio: Seq<u8>) -> bool {
    &&& p.text is None
    &&& p.inline_data matches Some(d) && d.mime_type@ == AUDIO_MIME_TYPE@ && d.data@
        == base64_standard(audio)
}

/// Whether `r` is the `generateContent` body for `audio`: a system
/// instruction holding `prompt` exactly when there is one, and one content of
/// two parts, the transcription instruction and the audio.
pub open spec fn is_generate_request(
    r: GenerateContentRequest,
    audio: Seq<u8>,
    prompt: Option<Seq<char>>,
) -> bool {
    &&& match prompt {
        None => r.system_instruction is None,
        Some(p) => r.system_instruction matches Some(si) && si.parts@.len() == 1 && is_text_part(
            si.parts@[0],
            p,
        ),
    }
    &&& r.contents@.len() == 1
    &&& r.contents@[0].parts@.len() == 2
    &&& is_text_part(r.contents@[0].parts@[0], TRANSCRIBE_INSTRUCTION@)
    &&& is_audio_part(r.contents@[0].parts@[1], audio)
}

/// The `generateContent` body that sends `wav_bytes` for transcription, with
/// `prompt`, if any, as the system instruction.
pub fn build_generate_request(wav_bytes: &[u8], prompt: Option<String>) -> (r:
    GenerateContentRequest)
    requires
        wav_bytes@.len() <= isize::MAX,
    ensures
        is_generate_request(r, wav_bytes@, opt_chars(prompt)),
{
    proof {
        lemma_encoded_len_fits(wav_bytes@.len());
    }
    let audio_data = encode_base64(wav_bytes);
    let system_instruction = match prompt {
        Some(p) => Some(SystemInstruction { parts: vec![Part { text: Some(p), inline_data: None }] }),
        None => None,
    };
    let instruction = Part { text: Some(String::from_str(TRANSCRIBE_INSTRUCTION)), inline_data: None };
    let audio = Part {
        text: None,
        inline_data: Some(InlineData { mime_type: String::from_str(AUDIO_MIME_TYPE), data: audio_data }),
    };
    GenerateContentRequest {
        system_instruction,
        contents: vec![Content { parts: vec![instruction, audio] }],
    }
}

/// The endpoint of `generateContent` for `model`.
pub open spec fn gemini_url_spec(model: Seq<char>) -> Seq<char> {
    GEMINI_BASE_URL@ + "/"@ + model + ":generateContent"@
}

/// The endpoint of `generateContent` for `model`.
pub fn gemini_url(model: &str) -> (r: String)
    ensures
        r@ == gemini_url_spec(model@),
{
    let mut url = String::from_str(GEMINI_BASE_URL);
    url.append("/");
    url.append(model);
    url.append(":generateContent");
    url
}

/// Everything that a Gemini call sends.
pub struct GeminiCall {
    pub url: String,
    /// Sent in the `x-goog-api-key` header.
    pub api_key: String,
    pub timeout_secs: u64,
    /// Sent as the JSON body.
    pub request: GenerateContentRequest,
}

/// Whether `c` is the call that sends `audio` to `model` with `api_key`,
/// `prompt` as system instruction and the given timeout.
pub open spec fn is_gemini_call(
    c: GeminiCall,
    api_key: Seq<char>,
    model: Seq<char>,
    audio: Seq<u8>,
    prompt: Option<Seq<char>>,
    timeout_secs: u64,
) -> bool {
    &&& c.url@ == gemini_url_spec(model)
    &&& c.api_key@ == api_key
    &&& c.timeout_secs == timeout_secs
    &&& is_generate_request(c.request, audio, prompt)
}

/// The call that sends `wav_bytes` to `model` with `api_key`.
pub fn gemini_call(
    api_key: &str,
    model: &str,
    wav_bytes: &[u8],
    prompt: Option<String>,
    timeout_secs: u64,
) -> (c: GeminiCall)
    requires
        wav_bytes@.len() <= isize::MAX,
    ensures
        is_gemini_call(c, api_key@, model@, wav_bytes@, opt_chars(prompt), timeout_secs),
{
    GeminiCall {
        url: gemini_url(model),
        api_key: String::from_str(api_key),
        timeout_secs,
        request: build_generate_request(wav_bytes, prompt),
    }
}

/// Whether `i` is the position of the first prompt with identifier `id`.
pub open spec fn is_first_with_id(prompts: Seq<LLMPrompt>, id: Seq<char>, i: int) -> bool {
    &&& 0 <= i < prompts.len()
    &&& prompts[i].id@ == id
    &&& forall|j: int| 0 <= j < i ==> prompts[j].id@ != id
}

/// The Gemini system instruction: with post-processing, the first prompt
/// whose identifier is `GEMINI_PROMPT_ID`, made into a system prompt, unless
/// that comes out empty; otherwise none.
pub open spec fn gemini_prompt(post_process: bool, prompts: Seq<LLMPrompt>) -> Option<Seq<char>> {
    if post_process && exists|i: int| is_first_with_id(prompts, GEMINI_PROMPT_ID@, i) {
        let i = choose|i: int| is_first_with_id(prompts, GEMINI_PROMPT_ID@, i);
        let p = system_prompt(prompts[i].prompt@);
        if p.len() == 0 {
            None
        } else {
            Some(p)
        }
    } else {
        None
    }
}

proof fn lemma_first_unique(prompts: Seq<LLMPrompt>, id: Seq<char>, i: int, k: int)
    requires
        is_first_with_id(prompts, id, i),
        is_first_with_id(prompts, id, k),
    ensures
        i == k,
{
    if i < k {
        assert(prompts[i].id@ != id);
    } else if k < i {
        assert(prompts[k].id@ != id);
    }
}

/// Resolve the Gemini system instruction from the post-processing prompts.
pub fn resolve_prompt(post_process: bool, prompts: &Vec<LLMPrompt>) -> (r: Option<String>)
    ensures
        opt_chars(r) == gemini_prompt(post_process, prompts@),
{
    if !post_process {
        return None;
    }
    let n = prompts.len();
    let mut i: usize = 0;
    while i < n
        invariant
            n == prompts@.len(),
            post_process,
            i <= n,
            forall|j: int| 0 <= j < i ==> prompts@[j].id@ != GEMINI_PROMPT_ID@,
        decreases n - i,
    {
        if str_eq(prompts[i].id.as_str(), GEMINI_PROMPT_ID) {
            assert(is_first_with_id(prompts@, GEMINI_PROMPT_ID@, i as int));
            proof {
                let k = choose|k: int| is_first_with_id(prompts@, GEMINI_PROMPT_ID@, k);
                lemma_first_unique(prompts@, GEMINI_PROMPT_ID@, i as int, k);
            }
            let p = build_system_prompt(prompts[i].prompt.as_str());
            if p.as_str().unicode_len() == 0 {
                return None;
            }
            return Some(p);
        }
        i = i + 1;
    }
    assert(!exists|k: int| is_first_with_id(prompts@, GEMINI_PROMPT_ID@, k));
    None
}

/// The transcription text of a `generateContent` answer: the text of the
/// first part of the first candidate, or empty when any of these is missing.
pub open spec fn response_text_spec(resp: GenerateContentResponse) -> Seq<char> {
    if resp.candidates@.len() > 0 && resp.candidates@[0].content.parts@.len() > 0 {
        match resp.candidates@[0].content.parts@[0].text {
            Some(t) => t@,
            None => Seq::empty(),
        }
    } else {
        Seq::empty()
    }
}

/// The transcription text of a `generateContent` answer.
pub fn response_text(resp: &GenerateContentResponse) -> (r: String)
    ensures
        r@ == response_text_spec(*resp),
{
    if resp.candidates.len() == 0 {
        return String::new();
    }
    let parts = &resp.candidates[0].content.parts;
    if parts.len() == 0 {
        return String::new();
    }
    match &parts[0].text {
        Some(t) => t.clone(),
        None => String::new(),
    }
}

/// How many bytes of an unreadable answer a parse error quotes at most.
pub const ERROR_EXCERPT_BYTES: usize = 300;

/// Why a Gemini call gave no transcription.
pub enum GeminiApiError {
    /// The status was not a success; the body as text.
    Status { status: u16, body: String },
    /// The body could not be parsed; the parser's message and the start of
    /// the body.
    BadResponse { message: String, body_excerpt: String },
}

/// The greatest character boundary of the UTF-8 text `bytes` that is not
/// after `i`.
pub open spec fn boundary_at_most(bytes: Seq<u8>, i: int) -> int
    decreases i,
{
    if i <= 0 {
        0
    } else if is_char_boundary(bytes, i) {
        i
    } else {
        boundary_at_most(bytes, i - 1)
    }
}

/// The UTF-8 bytes that a parse error quotes of `body`: its first
/// `ERROR_EXCERPT_BYTES` bytes, or all of it when it is shorter, cut back to
/// the last whole character.
pub open spec fn excerpt_bytes(body: Seq<char>) -> Seq<u8> {
    let b = encode_utf8(body);
    let limit: int = if b.len() <= ERROR_EXCERPT_BYTES {
        b.len() as int
    } else {
        ERROR_EXCERPT_BYTES as int
    };
    b.subrange(0, boundary_at_most(b, limit))
}

/// The start of `s` that a parse error quotes (see `excerpt_bytes`).
fn quote_start(s: &str) -> (r: String)
    ensures
        encode_utf8(r@) == excerpt_bytes(s@),
{
    broadcast use vstd::utf8::encode_utf8_valid_utf8;

    let ghost b = encode_utf8(s@);
    let n = s.as_bytes().len();
    let mut k: usize = if n <= ERROR_EXCERPT_BYTES {
        n
    } else {
        ERROR_EXCERPT_BYTES
    };
    let ghost limit: int = k as int;
    assert(b == s.spec_bytes());
    while k > 0 && !s.is_char_boundary(k)
        invariant
            b == s.spec_bytes(),
            n == b.len(),
            k <= n,
            boundary_at_most(b, limit) == boundary_at_most(b, k as int),
        decreases k,
    {
        k = k - 1;
    }
    assert(is_char_boundary(b, k as int));
    assert(boundary_at_most(b, k as int) == k);
    let (head, _) = s.split_at(k);
    String::from_str(head)
}

/// Whether `r` is what an answer with `status` and text `body`, parsed as
/// `parsed` (the answer or the parser's message), yields.
pub open spec fn is_gemini_outcome(
    status: u16,
    body: Seq<char>,
    parsed: Result<GenerateContentResponse, String>,
    r: Result<String, GeminiApiError>,
) -> bool {
    if !(200 <= status <= 299) {
        r matches Err(GeminiApiError::Status { status: s, body: b }) && s == status && b@ == body
    } else {
        match parsed {
            Err(m) => r matches Err(GeminiApiError::BadResponse { message, body_excerpt })
                && message@ == m@ && encode_utf8(body_excerpt@) == excerpt_bytes(body),
            Ok(resp) => r matches Ok(t) && t@ == response_text_spec(resp),
        }
    }
}

/// The transcription, or why there is none, for an answer with `status` and
/// text `body` that was parsed as `parsed`.
pub fn gemini_outcome(status: u16, body: String, parsed: Result<GenerateContentResponse, String>) -> (r:
    Result<String, GeminiApiError>)
    ensures
        is_gemini_outcome(status, body@, parsed, r),
{
    if !is_success_status(status) {
        return Err(GeminiApiError::Status { status, body });
    }
    match parsed {
        Err(message) => {
            let body_excerpt = quote_start(body.as_str());
            Err(GeminiApiError::BadResponse { message, body_excerpt })
        },
        Ok(resp) => Ok(response_text(&resp)),
    }
}

pub struct GeminiProvider;

/// Whether `c` is the Gemini call that transcribes `wav` for `settings`.
pub open spec fn is_gemini_transcription_call(
    wav: Seq<u8>,
    post_process: bool,
    settings: AppSettings,
    c: GeminiCall,
) -> bool {
    is_gemini_call(
        c,
        settings.gemini_api_key@,
        settings.gemini_model@,
        wav,
        gemini_prompt(post_process, settings.post_process_prompts@),
        GEMINI_TIMEOUT_SECS,
    )
}

impl CloudProvider for GeminiProvider {
    open spec fn model_id(&self) -> Seq<char> {
        MODEL_ID_GEMINI@
    }

    open spec fn is_transcription_request(
        &self,
        wav: Seq<u8>,
        post_process: bool,
        settings: AppSettings,
        r: TranscriptionRequest,
    ) -> bool {
        r matches TranscriptionRequest::Gemini(c) && is_gemini_transcription_call(
            wav,
            post_process,
            settings,
            c,
        )
    }

    open spec fn is_connection_test_request(&self, settings: AppSettings, r: TranscriptionRequest) -> bool {
        r matches TranscriptionRequest::Gemini(c) && is_gemini_call(
            c,
            settings.gemini_api_key@,
            settings.gemini_model@,
            silent_wav_bytes(),
            None,
            GEMINI_TIMEOUT_SECS,
        )
    }

    fn id(&self) -> (r: &'static str) {
        MODEL_ID_GEMINI
    }

    fn transcription_request(
        &self,
        wav_bytes: Vec<u8>,
        post_process: bool,
        settings: &AppSettings,
    ) -> (r: TranscriptionRequest) {
        let prompt = resolve_prompt(post_process, &settings.post_process_prompts);
        TranscriptionRequest::Gemini(
            gemini_call(
                settings.gemini_api_key.as_str(),
                settings.gemini_model.as_str(),
                wav_bytes.as_slice(),
                prompt,
                GEMINI_TIMEOUT_SECS,
            ),
        )
    }

    fn connection_test_request(&self, settings: &AppSettings) -> (r: TranscriptionRequest) {
        let wav = silent_wav();
        TranscriptionRequest::Gemini(
            gemini_call(
                settings.gemini_api_key.as_str(),
                settings.gemini_model.as_str(),
                wav.as_slice(),
                None,
                GEMINI_TIMEOUT_SECS,
            ),
        )
    }
}

/// The Gemini system instruction is only ever sent with post-processing,
/// and it is never empty nor surrounded by white space.
pub proof fn gemini_prompt_is_clean(post_process: bool, prompts: Seq<LLMPrompt>)
    ensures
        !post_process ==> gemini_prompt(post_process, prompts) is None,
        gemini_prompt(post_process, prompts) matches Some(p) ==> p.len() > 0 && is_trimmed(p),
        (forall|i: int| 0 <= i < prompts.len() ==> prompts[i].id@ != GEMINI_PROMPT_ID@)
            ==> gemini_prompt(post_process, prompts) is None,
{
    if post_process && exists|i: int| is_first_with_id(prompts, GEMINI_PROMPT_ID@, i) {
        let i = choose|i: int| is_first_with_id(prompts, GEMINI_PROMPT_ID@, i);
        system_prompt_is_trimmed(prompts[i].prompt@);
    }
}

/// A plain transcription (no post-processing) sends no system instruction.
pub proof fn plain_transcription_has_no_instruction(wav: Seq<u8>, settings: AppSettings, c: GeminiCall)
    requires
        is_gemini_transcription_call(wav, false, settings, c),
    ensures
        c.request.system_instruction is None,
{
}

/// The audio in a `generateContent` body decodes to the WAV bytes it was
/// built from: they reach the service unchanged.
pub proof fn audio_forwarded_unchanged(
    r: GenerateContentRequest,
    audio: Seq<u8>,
    prompt: Option<Seq<char>>,
)
    requires
        is_generate_request(r, audio, prompt),
    ensures
        r.contents@[0].parts@[1].inline_data matches Some(d) && base64_decode(d.data@) == audio,
{
    base64_round_trip(audio);
}

/// The connection test sends no instruction and audio that decodes to the
/// silent WAV: a complete 16 kHz mono 16-bit PCM file with no samples.
pub proof fn connection_test_sends_silent_wav(settings: AppSettings, r: TranscriptionRequest)
    requires
        GeminiProvider.is_connection_test_request(settings, r),
    ensures
        r matches TranscriptionRequest::Gemini(c) && c.request.system_instruction is None && (
        c.request.contents@[0].parts@[1].inline_data matches Some(d) && base64_decode(d.data@)
            == silent_wav_bytes() && is_empty_mono_16k_wav(base64_decode(d.data@))),
{
    base64_round_trip(silent_wav_bytes());
    silent_wav_is_empty_wav();
}

/// On a successful answer, the transcription is the text of the first part
/// of the first candidate, whole and unchanged; when that text is missing it
/// is empty.
pub proof fn transcription_is_first_part_text(
    status: u16,
    body: Seq<char>,
    resp: GenerateContentResponse,
    r: Result<String, GeminiApiError>,
)
    requires
        200 <= status <= 299,
        is_gemini_outcome(status, body, Ok(resp), r),
    ensures
        (resp.candidates@.len() > 0 && resp.candidates@[0].content.parts@.len() > 0
            && resp.candidates@[0].content.parts@[0].text is Some) ==> (r matches Ok(x) && x@
            == resp.candidates@[0].content.parts@[0].text->0@),
        !(resp.candidates@.len() > 0 && resp.candidates@[0].content.parts@.len() > 0
            && resp.candidates@[0].content.parts@[0].text is Some) ==> (r matches Ok(x) && x@.len()
            == 0),
{
}

/// With post-processing, the first prompt with the Gemini identifier is
/// sent as the system instruction, made into a system prompt, whenever that
/// is not empty; a template without the placeholder and surrounding white
/// space is sent exactly as written.
pub proof fn post_processing_sends_the_gemini_prompt(
    wav: Seq<u8>,
    settings: AppSettings,
    r: TranscriptionRequest,
    i: int,
)
    requires
        GeminiProvider.is_transcription_request(wav, true, settings, r),
        is_first_with_id(settings.post_process_prompts@, GEMINI_PROMPT_ID@, i),
        system_prompt(settings.post_process_prompts@[i].prompt@).len() > 0,
    ensures
        gemini_prompt(true, settings.post_process_prompts@) == Some(
            system_prompt(settings.post_process_prompts@[i].prompt@),
        ),
        r matches TranscriptionRequest::Gemini(c) && (c.request.system_instruction matches Some(si)
            && si.parts@.len() == 1 && (si.parts@[0].text matches Some(x) && x@ == system_prompt(
            settings.post_process_prompts@[i].prompt@))),
        !occurs_in(settings.post_process_prompts@[i].prompt@, OUTPUT_PLACEHOLDER@) && is_trimmed(
            settings.post_process_prompts@[i].prompt@,
        ) ==> (r matches TranscriptionRequest::Gemini(c) && (c.request.system_instruction matches Some(
            si,
        ) && (si.parts@[0].text matches Some(x) && x@ == settings.post_process_prompts@[i].prompt@))),
{
    let ps = settings.post_process_prompts@;
    let k = choose|k: int| is_first_with_id(ps, GEMINI_PROMPT_ID@, k);
    lemma_first_unique(ps, GEMINI_PROMPT_ID@, i, k);
    if !occurs_in(ps[i].prompt@, OUTPUT_PLACEHOLDER@) && is_trimmed(ps[i].prompt@) {
        system_prompt_of_plain_template(ps[i].prompt@);
    }
}

/// An unsuccessful answer is refused with its status and its whole body,
/// whatever it holds; a successful one that could not be parsed with the
/// parser's message and the start of the body.
pub proof fn refused_gemini_answers(
    status: u16,
    body: Seq<char>,
    parsed: Result<GenerateContentResponse, String>,
    r: Result<String, GeminiApiError>,
)
    requires
        is_gemini_outcome(status, body, parsed, r),
    ensures
        !(200 <= status <= 299) ==> (r matches Err(GeminiApiError::Status { status: s, body: b })
            && s == status && b@ == body),
        200 <= status <= 299 && parsed is Err ==> (r matches Err(
            GeminiApiError::BadResponse { message, body_excerpt },
        ) && message@ == parsed->Err_0@ && encode_utf8(body_excerpt@) == excerpt_bytes(body)),
{
}

proof fn lemma_boundary_at_most(bytes: Seq<u8>, i: int)
    requires
        0 <= i,
    ensures
        0 <= boundary_at_most(bytes, i) <= i,
    decreases i,
{
    if i > 0 && !is_char_boundary(bytes, i) {
        lemma_boundary_at_most(bytes, i - 1);
    }
}

/// What a parse error quotes of a body is its start, at most
/// `ERROR_EXCERPT_BYTES` bytes of its UTF-8 text, and the whole body when
/// that is no longer.
pub proof fn excerpt_is_the_start_of_the_body(body: Seq<char>)
    ensures
        excerpt_bytes(body).len() <= ERROR_EXCERPT_BYTES,
        excerpt_bytes(body) == encode_utf8(body).subrange(0, excerpt_bytes(body).len() as int),
        encode_utf8(body).len() <= ERROR_EXCERPT_BYTES ==> excerpt_bytes(body) == encode_utf8(body),
{
    broadcast use vstd::utf8::encode_utf8_valid_utf8, vstd::utf8::is_char_boundary_start_end_of_seq;

    let b = encode_utf8(body);
    let limit: int = if b.len() <= ERROR_EXCERPT_BYTES {
        b.len() as int
    } else {
        ERROR_EXCERPT_BYTES as int
    };
    lemma_boundary_at_most(b, limit);
    if b.len() <= ERROR_EXCERPT_BYTES {
        assert(is_char_boundary(b, b.len() as int));
        assert(b.subrange(0, b.len() as int) =~= b);
    }
}

} // verus!
