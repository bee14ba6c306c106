//! Verified core of the Starfin web frontend: HLS playlist parsing, timed
//! metadata, adaptive bitrate decisions, error classification, the media
//! library's filtering, sorting and editing, and the decisions of its views.
pub mod api;
pub mod attributes;
pub mod display;
pub mod hex;
pub mod hls;
pub mod layout;
pub mod listing;
pub mod models;
pub mod player;
pub mod preview;
pub mod status;
pub mod std_text;
pub mod text;
