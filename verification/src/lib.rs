//! A chat-completion gateway: one canonical wire protocol in front of many
//! upstream providers.
//!
//! The library holds the protocol model, the registry with its credential
//! rotation, the request adapters and the transcoders that turn upstream
//! responses into canonical frames. It performs no I/O: callers hand it bytes
//! and plain values and send what it returns.

pub mod chat;
pub mod clock;
pub mod config;
pub mod config_decode;
pub mod convert;
pub mod cors;
pub mod decode;
pub mod dispatch;
pub mod emission;
pub mod error;
pub mod gemini;
pub mod gemini_stream;
pub mod json;
pub mod message;
pub mod provider;
pub mod pump;
pub mod request;
pub mod sse;
pub mod stream;
pub mod table;
pub mod tags;
pub mod text;
pub mod tool;
pub mod upstream;
pub mod view;

pub use config::{ApiKeyInfo, ApiKeyProvider, ModelInfo, SelectedApiKeyInfo, UniModelsInfo};
