//! HTTP Live Streaming: playlists, timed metadata, adaptive bitrate decisions
//! and error classification.
pub mod error;
pub mod playlist;
pub mod master;
pub mod media;
pub mod events;
pub mod metadata;
pub mod config;
pub mod abr;
pub mod controller;
pub mod loader;
