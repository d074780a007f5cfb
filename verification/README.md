# cloud_transcription

The decision logic of two cloud speech-to-text providers (Google Gemini
`generateContent` and any OpenAI-compatible `/audio/transcriptions`
endpoint), written in Verus and verified.

- `src/cloud_providers/` — model identifiers, the `CloudProvider` trait,
  the silent WAV used for credential checks, system-prompt preparation and
  the retry schedule (`mod.rs`); the Gemini request and answer (`gemini.rs`);
  the OpenAI-compatible form and answer (`openai.rs`).
- `src/gemini_client.rs` — the standalone Gemini client's calls.
- `src/encoding.rs` — standard base64 as a specification, with the proof that
  decoding gives the bytes back.
- `src/settings.rs` — the settings the providers read.
- `src/text.rs` — trimming, pattern removal and comparison of strings,
  specified over `Seq<char>`.
- `app/` — plain Rust that sends the requests with `reqwest`, parses
  Gemini's JSON answer with `serde`, and drives the retry schedule with
  `tokio` timers.
