//! Prompt construction and response decoding for the voice-to-text polishing
//! pipeline: the user prompt that wraps a raw transcription, the chat messages
//! sent to a provider, and the decoding of streamed and whole provider replies.

pub mod text;
pub mod prompt;
pub mod json;
pub mod status;
pub mod provider;
pub mod stream;
pub mod prompt_laws;
pub mod probe;
