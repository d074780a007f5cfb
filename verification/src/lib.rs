//! Verified decision logic of the cloud transcription providers: what each
//! provider sends, how answers are read, and when a failed call is retried.
pub mod cloud_providers;
pub mod encoding;
pub mod gemini_client;
pub mod settings;
pub mod text;
