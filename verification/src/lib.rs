//! Secure chat client core: the voice-chat subsystem (signaling state
//! machine, audio stream bookkeeping, sample-rate conversion) together
//! with the message types and small pure helpers the client is built on.

pub mod api;
pub mod audio;
pub mod config;
pub mod crypto;
pub mod manager;
pub mod resampler;
pub mod ssh;
pub mod strutil;
pub mod vim;
