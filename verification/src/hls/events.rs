//! Data carried by HLS events: tracks, switch reasons and timed metadata.
use vstd::prelude::*;

verus! {

/// Audio track information.
#[derive(Clone, Debug)]
pub struct AudioTrack {
    pub id: usize,
    pub name: String,
    pub language: Option<String>,
    pub default: bool,
    pub autoselect: bool,
    pub group_id: String,
    pub channels: Option<String>,
}

/// Subtitle track information.
#[derive(Clone, Debug)]
pub struct SubtitleTrack {
    pub id: usize,
    pub name: String,
    pub language: Option<String>,
    pub default: bool,
    pub autoselect: bool,
    pub forced: bool,
    pub group_id: String,
}

/// Segment type (audio, video or muxed).
#[derive(Clone, Copy, Debug, PartialEq, Eq, Structural)]
pub enum SegmentType {
    Audio,
    Video,
    Combined,
}

/// Why the ABR controller switched levels.
#[derive(Clone, Copy, Debug, PartialEq, Eq, Structural)]
pub enum AbrSwitchReason {
    /// Bandwidth estimate increased
    BandwidthIncrease,
    /// Bandwidth estimate decreased
    BandwidthDecrease,
    /// Emergency switch due to buffer starvation
    EmergencySwitch,
    /// Buffer level exceeded threshold
    BufferFull,
    /// Dropped frames threshold exceeded
    DroppedFrames,
    /// Level capping applied
    LevelCap,
}

/// One frame of an ID3 tag.
#[derive(Clone, Debug)]
pub struct Id3Frame {
    pub id: String,
    pub data: Vec<u8>,
}

/// An ID3 frame as plain values.
pub struct Id3FrameV {
    pub id: Seq<char>,
    pub data: Seq<u8>,
}

impl View for Id3Frame {
    type V = Id3FrameV;

    open spec fn view(&self) -> Id3FrameV {
        Id3FrameV { id: self.id@, data: self.data@ }
    }
}

/// An ID3 tag found in segment data: its bytes (header included) and its frames.
/// The presentation and decode times that travel with it are kept by the caller.
#[derive(Clone, Debug)]
pub struct Id3Sample {
    pub data: Vec<u8>,
    pub frames: Vec<Id3Frame>,
}

/// An EMSG (event message) box.
#[derive(Clone, Debug)]
pub struct EmsgEvent {
    pub scheme_id_uri: String,
    pub value: String,
    pub timescale: u32,
    pub presentation_time_delta: u32,
    pub event_duration: u32,
    pub id: u32,
    pub message_data: Vec<u8>,
}

/// An EMSG box as plain values.
pub struct EmsgEventV {
    pub scheme_id_uri: Seq<char>,
    pub value: Seq<char>,
    pub timescale: u32,
    pub presentation_time_delta: u32,
    pub event_duration: u32,
    pub id: u32,
    pub message_data: Seq<u8>,
}

impl View for EmsgEvent {
    type V = EmsgEventV;

    open spec fn view(&self) -> EmsgEventV {
        EmsgEventV {
            scheme_id_uri: self.scheme_id_uri@,
            value: self.value@,
            timescale: self.timescale,
            presentation_time_delta: self.presentation_time_delta,
            event_duration: self.event_duration,
            id: self.id,
            message_data: self.message_data@,
        }
    }
}

/// DATERANGE information delivered as metadata; durations are kept as the
/// decimal text of their attributes.
#[derive(Clone, Debug)]
pub struct DateRange {
    pub id: String,
    pub class: Option<String>,
    pub start_date: String,
    pub end_date: Option<String>,
    pub duration: Option<String>,
    pub planned_duration: Option<String>,
    pub scte35_cmd: Option<Vec<u8>>,
    pub scte35_out: Option<Vec<u8>>,
    pub scte35_in: Option<Vec<u8>>,
    pub end_on_next: bool,
    pub client_attributes: Vec<(String, String)>,
}

} // verus!
