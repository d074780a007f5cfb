//! Cloud transcription providers: model identifiers, the provider trait, the
//! shared retry schedule, and helpers common to all providers.
pub mod gemini;
pub mod openai;

use vstd::prelude::*;

use crate::settings::AppSettings;
use crate::text::{
    is_trimmed, lemma_remove_all_repeatedly_absent, lemma_trim_is_trimmed, lemma_trim_keeps_absent,
    lemma_trim_of_trimmed, occurs_in, remove_all_repeatedly, remove_all_repeatedly_str, str_eq,
    trim, trim_str,
};
use self::gemini::{GeminiCall, GeminiProvider};
use self::openai::{CloudCall, OpenAiProvider};

verus! {

/// Model identifier of the OpenAI-compatible provider.
pub const MODEL_ID_CLOUD: &'static str = "cloud";

/// Model identifier of the Gemini provider.
pub const MODEL_ID_GEMINI: &'static str = "gemini";

/// Whether `id` names a cloud provider.
pub open spec fn is_cloud_model_id(id: Seq<char>) -> bool {
    id == MODEL_ID_CLOUD@ || id == MODEL_ID_GEMINI@
}

/// A request that a provider hands to the network layer: everything that
/// goes out, decided here; the sending is done elsewhere.
pub enum TranscriptionRequest {
    /// A `generateContent` call to Gemini.
    Gemini(GeminiCall),
    /// A multipart POST to an OpenAI-compatible `/audio/transcriptions`.
    OpenAi(CloudCall),
}

/// A cloud transcription provider.
pub trait CloudProvider: Send + Sync {
    /// The model identifier this provider answers to.
    spec fn model_id(&self) -> Seq<char>;

    /// Whether `r` is the request this provider sends to transcribe `wav`
    /// with the given post-processing flag and settings.
    spec fn is_transcription_request(
        &self,
        wav: Seq<u8>,
        post_process: bool,
        settings: AppSettings,
        r: TranscriptionRequest,
    ) -> bool;

    /// Whether `r` is the minimal request this provider sends to check the
    /// credentials in `settings`.
    spec fn is_connection_test_request(&self, settings: AppSettings, r: TranscriptionRequest) -> bool;

    /// The model identifier this provider answers to.
    fn id(&self) -> (r: &'static str)
        ensures
            r@ == self.model_id(),
    ;

    /// The request that transcribes `wav_bytes` (a WAV file); with
    /// `post_process` the provider may apply its own prompt.
    fn transcription_request(
        &self,
        wav_bytes: Vec<u8>,
        post_process: bool,
        settings: &AppSettings,
    ) -> (r: TranscriptionRequest)
        requires
            wav_bytes@.len() <= isize::MAX,
        ensures
            self.is_transcription_request(wav_bytes@, post_process, *settings, r),
    ;

    /// The request that verifies the credentials with a minimal upload.
    fn connection_test_request(&self, settings: &AppSettings) -> (r: TranscriptionRequest)
        ensures
            self.is_connection_test_request(*settings, r),
    ;
}

/// Returns true if the model ID corresponds to a cloud provider.
pub fn is_cloud_model(model_id: &str) -> (r: bool)
    ensures
        r == is_cloud_model_id(model_id@),
{
    str_eq(model_id, MODEL_ID_CLOUD) || str_eq(model_id, MODEL_ID_GEMINI)
}

/// Resolve a model ID to its provider; `None` for local model IDs.
pub fn provider_for_model(model_id: &str) -> (r: Option<Box<dyn CloudProvider>>)
    ensures
        r is Some <==> is_cloud_model_id(model_id@),
        r matches Some(p) ==> p.model_id() == model_id@,
        model_id@ == MODEL_ID_CLOUD@ ==> (r matches Some(p) && (forall|
            wav: Seq<u8>,
            post_process: bool,
            settings: AppSettings,
            q: TranscriptionRequest,
        |
            #[trigger] p.is_transcription_request(wav, post_process, settings, q)
                == OpenAiProvider.is_transcription_request(wav, post_process, settings, q)) && (
        forall|settings: AppSettings, q: TranscriptionRequest|
            #[trigger] p.is_connection_test_request(settings, q)
                == OpenAiProvider.is_connection_test_request(settings, q))),
        model_id@ == MODEL_ID_GEMINI@ ==> (r matches Some(p) && (forall|
            wav: Seq<u8>,
            post_process: bool,
            settings: AppSettings,
            q: TranscriptionRequest,
        |
            #[trigger] p.is_transcription_request(wav, post_process, settings, q)
                == GeminiProvider.is_transcription_request(wav, post_process, settings, q)) && (
        forall|settings: AppSettings, q: TranscriptionRequest|
            #[trigger] p.is_connection_test_request(settings, q)
                == GeminiProvider.is_connection_test_request(settings, q))),
{
    if str_eq(model_id, MODEL_ID_CLOUD) {
        assert(MODEL_ID_CLOUD@ != MODEL_ID_GEMINI@) by {
            reveal_strlit("cloud");
            reveal_strlit("gemini");
            assert(MODEL_ID_CLOUD@.len() != MODEL_ID_GEMINI@.len());
        }
        let q = OpenAiProvider;
        let p: Box<dyn CloudProvider> = Box::new(q);
        assert(p.model_id() == q.model_id());
        assert forall|wav: Seq<u8>, post_process: bool, settings: AppSettings, r: TranscriptionRequest|
            #[trigger] p.is_transcription_request(wav, post_process, settings, r)
                == q.is_transcription_request(wav, post_process, settings, r) by {}
        assert forall|settings: AppSettings, r: TranscriptionRequest|
            #[trigger] p.is_connection_test_request(settings, r) == q.is_connection_test_request(
                settings,
                r,
            ) by {}
        let r = Some(p);
        assert(r matches Some(x) ==> x.model_id() == model_id@);
        r
    } else if str_eq(model_id, MODEL_ID_GEMINI) {
        let q = GeminiProvider;
        let p: Box<dyn CloudProvider> = Box::new(q);
        assert(p.model_id() == q.model_id());
        assert forall|wav: Seq<u8>, post_process: bool, settings: AppSettings, r: TranscriptionRequest|
            #[trigger] p.is_transcription_request(wav, post_process, settings, r)
                == q.is_transcription_request(wav, post_process, settings, r) by {}
        assert forall|settings: AppSettings, r: TranscriptionRequest|
            #[trigger] p.is_connection_test_request(settings, r) == q.is_connection_test_request(
                settings,
                r,
            ) by {}
        let r = Some(p);
        assert(r matches Some(x) ==> x.model_id() == model_id@);
        r
    } else {
        None
    }
}

/// The little-endian 16-bit number at `at` in `s`.
pub open spec fn le_u16(s: Seq<u8>, at: int) -> int {
    s[at] + 256 * s[at + 1]
}

/// The little-endian 32-bit number at `at` in `s`.
pub open spec fn le_u32(s: Seq<u8>, at: int) -> int {
    s[at] + 256 * s[at + 1] + 65536 * s[at + 2] + 16777216 * s[at + 3]
}

/// Whether the four bytes at `at` in `s` are the ASCII tag `tag`.
pub open spec fn has_tag(s: Seq<u8>, at: int, tag: Seq<u8>) -> bool {
    s.subrange(at, at + 4) == tag
}

/// Whether `s` is a complete canonical RIFF/WAVE file of 16-bit PCM, one
/// channel at 16000 Hz, whose data chunk holds no samples.
pub open spec fn is_empty_mono_16k_wav(s: Seq<u8>) -> bool {
    &&& s.len() == 44
    &&& has_tag(s, 0, seq![0x52u8, 0x49, 0x46, 0x46])  // "RIFF"
    &&& le_u32(s, 4) == s.len() - 8
    &&& has_tag(s, 8, seq![0x57u8, 0x41, 0x56, 0x45])  // "WAVE"
    &&& has_tag(s, 12, seq![0x66u8, 0x6D, 0x74, 0x20])  // "fmt "
    &&& le_u32(s, 16) == 16
    &&& le_u16(s, 20) == 1  // PCM
    &&& le_u16(s, 22) == 1  // channels
    &&& le_u32(s, 24) == 16000  // sample rate
    &&& le_u32(s, 28) == le_u32(s, 24) * le_u16(s, 22) * le_u16(s, 34) / 8  // byte rate
    &&& le_u16(s, 32) == le_u16(s, 22) * le_u16(s, 34) / 8  // block align
    &&& le_u16(s, 34) == 16  // bits per sample
    &&& has_tag(s, 36, seq![0x64u8, 0x61, 0x74, 0x61])  // "data"
    &&& le_u32(s, 40) == s.len() - 44
}

/// The bytes of the silent WAV file used for credential checks.
pub open spec fn silent_wav_bytes() -> Seq<u8> {
    seq![
        0x52u8, 0x49, 0x46, 0x46, 0x24, 0x00, 0x00, 0x00, 0x57, 0x41, 0x56, 0x45, 0x66, 0x6D,
        0x74, 0x20, 0x10, 0x00, 0x00, 0x00, 0x01, 0x00, 0x01, 0x00, 0x80, 0x3E, 0x00, 0x00,
        0x00, 0x7D, 0x00, 0x00, 0x02, 0x00, 0x10, 0x00, 0x64, 0x61, 0x74, 0x61, 0x00, 0x00,
        0x00, 0x00,
    ]
}

/// Minimal valid 16kHz mono WAV with 0 samples (44-byte header only).
/// Used for credential checks.
pub fn silent_wav() -> (r: Vec<u8>)
    ensures
        r@ == silent_wav_bytes(),
        is_empty_mono_16k_wav(r@),
{
    let r: Vec<u8> = vec![
        0x52, 0x49, 0x46, 0x46, 0x24, 0x00, 0x00, 0x00, 0x57, 0x41, 0x56, 0x45, 0x66, 0x6D, 0x74,
        0x20, 0x10, 0x00, 0x00, 0x00, 0x01, 0x00, 0x01, 0x00, 0x80, 0x3E, 0x00, 0x00, 0x00, 0x7D,
        0x00, 0x00, 0x02, 0x00, 0x10, 0x00, 0x64, 0x61, 0x74, 0x61, 0x00, 0x00, 0x00, 0x00,
    ];
    assert(r@ =~= silent_wav_bytes());
    proof {
        silent_wav_is_empty_wav();
    }
    r
}

/// The silent WAV is a complete 16 kHz mono 16-bit PCM file with no samples.
pub proof fn silent_wav_is_empty_wav()
    ensures
        is_empty_mono_16k_wav(silent_wav_bytes()),
{
    let r = silent_wav_bytes();
    assert(r.subrange(0, 4) =~= seq![0x52u8, 0x49, 0x46, 0x46]);
    assert(r.subrange(8, 12) =~= seq![0x57u8, 0x41, 0x56, 0x45]);
    assert(r.subrange(12, 16) =~= seq![0x66u8, 0x6D, 0x74, 0x20]);
    assert(r.subrange(36, 40) =~= seq![0x64u8, 0x61, 0x74, 0x61]);
    assert(le_u32(r, 4) == 36);
    assert(le_u32(r, 16) == 16);
    assert(le_u16(r, 20) == 1);
    assert(le_u16(r, 22) == 1);
    assert(le_u32(r, 24) == 16000);
    assert(le_u32(r, 28) == 32000);
    assert(le_u16(r, 32) == 2);
    assert(le_u16(r, 34) == 16);
    assert(le_u32(r, 40) == 0);
}

/// The placeholder that a prompt template uses for the transcription.
pub const OUTPUT_PLACEHOLDER: &'static str = "${output}";

/// The system instruction made from a prompt template: the template with
/// the `${output}` placeholder taken out until none is left, then trimmed.
pub open spec fn system_prompt(template: Seq<char>) -> Seq<char> {
    trim(remove_all_repeatedly(template, OUTPUT_PLACEHOLDER@))
}

/// Strip the `${output}` placeholder from a prompt template to produce a
/// system instruction.
pub fn build_system_prompt(prompt_template: &str) -> (r: String)
    ensures
        r@ == system_prompt(prompt_template@),
        !occurs_in(r@, OUTPUT_PLACEHOLDER@),
{
    let stripped = remove_all_repeatedly_str(prompt_template, OUTPUT_PLACEHOLDER);
    proof {
        system_prompt_has_no_placeholder(prompt_template@);
    }
    trim_str(stripped.as_str())
}

/// A system prompt has neither leading nor trailing white space.
pub proof fn system_prompt_is_trimmed(template: Seq<char>)
    ensures
        is_trimmed(system_prompt(template)),
{
    lemma_trim_is_trimmed(remove_all_repeatedly(template, OUTPUT_PLACEHOLDER@));
}

/// No `${output}` placeholder is left in a system prompt.
pub proof fn system_prompt_has_no_placeholder(template: Seq<char>)
    ensures
        !occurs_in(system_prompt(template), OUTPUT_PLACEHOLDER@),
{
    assert(OUTPUT_PLACEHOLDER@.len() == 9) by {
        reveal_strlit("${output}");
    }
    lemma_remove_all_repeatedly_absent(template, OUTPUT_PLACEHOLDER@);
    lemma_trim_keeps_absent(remove_all_repeatedly(template, OUTPUT_PLACEHOLDER@), OUTPUT_PLACEHOLDER@);
}

/// A template without the placeholder and without surrounding white space is
/// its own system prompt.
pub proof fn system_prompt_of_plain_template(template: Seq<char>)
    requires
        !occurs_in(template, OUTPUT_PLACEHOLDER@),
        is_trimmed(template),
    ensures
        system_prompt(template) == template,
{
    lemma_trim_of_trimmed(template);
}

/// Whether an HTTP status code reports success (the 2xx class).
pub fn is_success_status(status: u16) -> (r: bool)
    ensures
        r == (200 <= status <= 299),
{
    200 <= status && status <= 299
}

/// How many times a transcription is attempted before giving up.
pub const RETRY_ATTEMPTS: usize = 3;

/// The wait before attempt number `attempt` (counted from 0), in ms.
pub open spec fn retry_delay(attempt: int) -> u64 {
    if attempt == 0 {
        0
    } else if attempt == 1 {
        300
    } else {
        800
    }
}

/// The wait before attempt number `attempt` (counted from 0), in ms.
pub fn retry_delay_ms(attempt: usize) -> (d: u64)
    requires
        attempt < RETRY_ATTEMPTS,
    ensures
        d == retry_delay(attempt as int),
{
    if attempt == 0 {
        0
    } else if attempt == 1 {
        300
    } else {
        800
    }
}

/// What the retry loop does next.
pub enum RetryAction<E> {
    /// Wait `delay_ms` milliseconds, then make another attempt.
    Attempt { delay_ms: u64 },
    /// Stop and hand back this outcome.
    Finish(Result<String, E>),
}

/// Progress of a retried transcription: how many attempts have been made.
pub struct RetryState {
    pub attempts_made: usize,
}

/// The state and action that follow the outcome of the attempt after
/// `attempts_made` earlier ones.
pub open spec fn retry_next<E>(attempts_made: nat, outcome: Result<String, E>) -> (
    nat,
    RetryAction<E>,
) {
    match outcome {
        Ok(text) => (attempts_made + 1, RetryAction::Finish(Ok(text))),
        Err(e) => if attempts_made + 1 < RETRY_ATTEMPTS {
            (
                attempts_made + 1,
                RetryAction::Attempt { delay_ms: retry_delay(attempts_made + 1 as int) },
            )
        } else {
            (attempts_made + 1, RetryAction::Finish(Err(e)))
        },
    }
}

impl RetryState {
    /// The state before any attempt, and the first action: attempt at once.
    pub fn start<E>() -> (r: (RetryState, RetryAction<E>))
        ensures
            r.0.attempts_made == 0,
            r.1 == (RetryAction::<E>::Attempt { delay_ms: retry_delay(0) }),
    {
        (RetryState { attempts_made: 0 }, RetryAction::Attempt { delay_ms: retry_delay_ms(0) })
    }

    /// Record the outcome of an attempt; a success, or the failure of the
    /// last allowed attempt, finishes; another failure asks for a retry after
    /// the scheduled wait.
    pub fn record<E>(self, outcome: Result<String, E>) -> (r: (RetryState, RetryAction<E>))
        requires
            self.attempts_made < RETRY_ATTEMPTS,
        ensures
            (r.0.attempts_made as nat, r.1) == retry_next(self.attempts_made as nat, outcome),
            r.1 is Attempt ==> r.0.attempts_made < RETRY_ATTEMPTS,
    {
        let made = self.attempts_made + 1;
        match outcome {
            Ok(text) => (RetryState { attempts_made: made }, RetryAction::Finish(Ok(text))),
            Err(e) => if made < RETRY_ATTEMPTS {
                (
                    RetryState { attempts_made: made },
                    RetryAction::Attempt { delay_ms: retry_delay_ms(made) },
                )
            } else {
                (RetryState { attempts_made: made }, RetryAction::Finish(Err(e)))
            },
        }
    }
}

/// The outcome of a retried transcription whose attempts would give
/// `o0`, `o1`, `o2` in turn: the first success, or else the last failure.
pub open spec fn retry_outcome<E>(
    o0: Result<String, E>,
    o1: Result<String, E>,
    o2: Result<String, E>,
) -> Result<String, E> {
    if o0 is Ok {
        o0
    } else if o1 is Ok {
        o1
    } else {
        o2
    }
}

/// Retry schedule: starting fresh, the first attempt comes at once; each
/// failure but the third asks for another attempt, after 300 ms and then
/// 800 ms; the first success ends the run with its text; the third failure
/// ends it with that error; no fourth attempt is ever asked for.
pub proof fn retry_schedule<E>(o0: Result<String, E>, o1: Result<String, E>, o2: Result<String, E>)
    ensures
        retry_delay(0) == 0,
        ({
            let s1 = retry_next(0, o0);
            &&& o0 is Ok ==> s1.1 == RetryAction::Finish(o0)
            &&& o0 is Err ==> s1 == (1nat, RetryAction::<E>::Attempt { delay_ms: 300 })
        }),
        ({
            let s2 = retry_next(1, o1);
            &&& o1 is Ok ==> s2.1 == RetryAction::Finish(o1)
            &&& o1 is Err ==> s2 == (2nat, RetryAction::<E>::Attempt { delay_ms: 800 })
        }),
        retry_next(2, o2).1 == RetryAction::Finish(o2),
        ({
            let first = retry_next(0, o0).1;
            let second = retry_next(1, o1).1;
            let third = retry_next(2, o2).1;
            let ended = if first is Finish {
                first
            } else if second is Finish {
                second
            } else {
                third
            };
            ended == RetryAction::Finish(retry_outcome(o0, o1, o2))
        }),
{
}

} // verus!
