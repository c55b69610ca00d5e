//! Orchestration core of a text-to-speech gateway: request normalization,
//! segment alignment, cache naming, audio encoding and cache eviction.

pub mod audio;
pub mod cache;
pub mod evict;
pub mod handler;
pub mod request;
pub mod synthesis;
pub mod text;
pub mod voices;
