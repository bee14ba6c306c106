//! The HLS controller: reads manifests once they are fetched, keeps the quality
//! levels and the ABR decisions, and answers questions about the current media
//! playlist.
//!
//! Fetching is the embedding player's work: it hands the fetched text to
//! [`HlsController::load_manifest_text`] and [`HlsController::load_level_text`].
use crate::hls::abr::{
    allowed_in, capped_indexes, confirmed, AbrController, AbrMode, AbrSignals, AbrState, CapV, LevelSelection,
    SwitchReason,
};
use crate::hls::config::{HlsConfig, QualitySwitchMode};
use crate::hls::error::{ErrorCategory, ErrorCode, HlsError};
use crate::hls::master::{level_views, master_from_text, master_text_breaks, MasterPlaylist,
    MasterPlaylistV};
use crate::hls::media::{
    copy_date_ranges, date_range_views, media_from_text, media_text_breaks, MediaPlaylist,
    MediaPlaylistV,
};
use crate::hls::metadata::MetadataParser;
use crate::hls::playlist::{
    is_master_playlist, is_master_text, opt_key_view, DateRangeTagV, EncryptionMethod, Level, LevelV,
};
use crate::text::{chars_of, decimal, decimal_chars, push_chars, push_str, string_of};
use vstd::prelude::*;

verus! {

/// Quality level info for display.
#[derive(Clone, Debug)]
pub struct QualityLevel {
    pub index: usize,
    pub name: String,
    pub bitrate: u64,
    pub resolution: Option<(u32, u32)>,
    pub enabled: bool,
}

/// Quality level info as plain values.
pub struct QualityLevelV {
    pub index: usize,
    pub name: Seq<char>,
    pub bitrate: u64,
    pub resolution: Option<(u32, u32)>,
    pub enabled: bool,
}

impl View for QualityLevel {
    type V = QualityLevelV;

    open spec fn view(&self) -> QualityLevelV {
        QualityLevelV {
            index: self.index,
            name: self.name@,
            bitrate: self.bitrate,
            resolution: self.resolution,
            enabled: self.enabled,
        }
    }
}

/// The display info of a level, enabled or not.
pub open spec fn quality_of(l: LevelV, enabled: bool) -> QualityLevelV {
    QualityLevelV {
        index: l.index,
        name: l.name,
        bitrate: l.bitrate,
        resolution: match l.resolution {
            Some(r) => Some((r.width, r.height)),
            None => None,
        },
        enabled,
    }
}

/// The display info of the levels, each enabled when the ABR state allows it.
pub open spec fn qualities(levels: Seq<LevelV>, s: AbrState) -> Seq<QualityLevelV> {
    levels.map_values(|l: LevelV| quality_of(l, allowed_in(s, l.index)))
}

/// The views of a sequence of quality levels.
pub open spec fn quality_views(v: Seq<QualityLevel>) -> Seq<QualityLevelV> {
    v.map_values(|q: QualityLevel| q@)
}

impl QualityLevel {
    /// The display info of a level, enabled.
    pub fn from_level(level: &Level) -> (r: Self)
        ensures
            r@ == quality_of(level@, true),
    {
        QualityLevel {
            index: level.index,
            name: level.name.clone(),
            bitrate: level.bitrate,
            resolution: match &level.resolution {
                Some(r) => Some((r.width, r.height)),
                None => None,
            },
            enabled: true,
        }
    }
}

/// HLS stream information read from a manifest.
#[derive(Clone, Debug)]
pub struct HlsStreamInfo {
    /// Whether this is a multi-bitrate stream
    pub is_master: bool,
    /// Available quality levels
    pub levels: Vec<QualityLevel>,
    /// Whether the stream is VOD or live
    pub is_vod: bool,
    /// Initial recommended level index
    pub initial_level: usize,
}

/// Stream information as plain values.
pub struct HlsStreamInfoV {
    pub is_master: bool,
    pub levels: Seq<QualityLevelV>,
    pub is_vod: bool,
    pub initial_level: usize,
}

impl View for HlsStreamInfo {
    type V = HlsStreamInfoV;

    open spec fn view(&self) -> HlsStreamInfoV {
        HlsStreamInfoV {
            is_master: self.is_master,
            levels: quality_views(self.levels@),
            is_vod: self.is_vod,
            initial_level: self.initial_level,
        }
    }
}

/// The level to start with among `n` levels: the configured start level, at
/// most the last level, when it is not negative; else the middle one.
pub open spec fn initial_level(start_level: i32, n: nat) -> nat {
    if start_level >= 0 {
        if n == 0 {
            0
        } else if start_level <= n - 1 {
            start_level as nat
        } else {
            (n - 1) as nat
        }
    } else {
        n / 2
    }
}

/// The single level that stands for a media playlist fetched from `url`.
pub open spec fn default_level(url: Seq<char>) -> LevelV {
    LevelV {
        index: 0,
        bitrate: 0,
        avg_bitrate: None,
        resolution: None,
        video_codec: None,
        audio_codec: None,
        codecs: None,
        frame_rate: None,
        hdcp_level: None,
        audio_group: None,
        subtitle_group: None,
        cc_group: None,
        url,
        name: "Default"@,
    }
}

/// The message of the error for a missing level.
pub open spec fn level_missing_message(level: usize) -> Seq<char> {
    "Level "@ + decimal(level as nat) + " not found"@
}

/// The HLS controller.
pub struct HlsController {
    config: HlsConfig,
    abr: AbrController,
    metadata: MetadataParser,
    master_playlist: Option<MasterPlaylist>,
    media_playlist: Option<MediaPlaylist>,
    manifest_url: String,
    recovery_attempts: u32,
}

impl HlsController {
    /// The ABR state.
    pub closed spec fn abr_state(&self) -> AbrState {
        self.abr.state()
    }

    /// The master playlist, once one is read.
    pub closed spec fn master(&self) -> Option<MasterPlaylistV> {
        match self.master_playlist {
            Some(m) => Some(m@),
            None => None,
        }
    }

    /// The current media playlist, once one is read.
    pub closed spec fn media(&self) -> Option<MediaPlaylistV> {
        match self.media_playlist {
            Some(m) => Some(m@),
            None => None,
        }
    }

    /// The manifest URL.
    pub closed spec fn url(&self) -> Seq<char> {
        self.manifest_url@
    }

    /// The number of recovery attempts.
    pub closed spec fn recovery_attempts(&self) -> u32 {
        self.recovery_attempts
    }

    /// The date ranges that the metadata parser holds.
    pub closed spec fn date_ranges(&self) -> Seq<DateRangeTagV> {
        self.metadata.ranges()
    }

    /// The configured start level.
    pub closed spec fn start_level(&self) -> i32 {
        self.config.start_level
    }

    /// The ABR controller's allowed levels agree with its levels and caps.
    pub closed spec fn well_formed(&self) -> bool {
        self.abr.well_formed()
    }

    /// The ABR controller's configured caps.
    pub closed spec fn abr_caps(&self) -> CapV {
        self.abr.caps()
    }

    /// Whether the ABR controller caps levels to the player size.
    pub closed spec fn abr_caps_to_player(&self) -> bool {
        self.abr.caps_to_player()
    }

    /// The levels that the ABR controller would allow among `levels`.
    pub closed spec fn capped(&self, levels: Seq<LevelV>) -> Seq<usize> {
        capped_indexes(levels, self.abr.caps(), self.abr.player(), self.abr.caps_to_player())
    }

    /// A controller with the default configuration.
    pub fn new() -> (r: Self)
        ensures
            r.well_formed(),
            r.master() is None,
            r.media() is None,
            r.url() == Seq::<char>::empty(),
            r.recovery_attempts() == 0,
            r.abr_state().mode == AbrMode::Auto,
            r.abr_state().current_level == 0,
            r.abr_state().levels.len() == 0,
    {
        Self::with_config(HlsConfig::new())
    }

    /// A controller with the given configuration.
    pub fn with_config(config: HlsConfig) -> (r: Self)
        ensures
            r.well_formed(),
            r.master() is None,
            r.media() is None,
            r.url() == Seq::<char>::empty(),
            r.recovery_attempts() == 0,
            r.start_level() == config.start_level,
            r.date_ranges() == Seq::<DateRangeTagV>::empty(),
            r.abr_state().mode == (if config.start_level >= 0 {
                AbrMode::Manual(config.start_level as usize)
            } else {
                AbrMode::Auto
            }),
            r.abr_state().switch_mode == config.quality_switch_mode,
            r.abr_state().current_level == 0,
            r.abr_state().next_level is None,
            r.abr_state().capped_levels is None,
            r.abr_state().levels.len() == 0,
    {
        let abr = AbrController::new(&config);
        HlsController {
            abr,
            config,
            metadata: MetadataParser::new(),
            master_playlist: None,
            media_playlist: None,
            manifest_url: String::new(),
            recovery_attempts: 0,
        }
    }

    /// The display info of the levels, each enabled when the ABR controller
    /// allows it.
    fn level_infos(&self, levels: &Vec<Level>) -> (r: Vec<QualityLevel>)
        ensures
            quality_views(r@) == qualities(level_views(levels@), self.abr_state()),
    {
        let mut out: Vec<QualityLevel> = Vec::new();
        let mut i: usize = 0;
        while i < levels.len()
            invariant
                i <= levels@.len(),
                quality_views(out@) == qualities(level_views(levels@), self.abr_state()).take(
                    i as int,
                ),
            decreases levels.len() - i,
        {
            let mut q = QualityLevel::from_level(&levels[i]);
            q.enabled = self.abr.is_level_allowed(levels[i].index);
            let ghost before = quality_views(out@);
            out.push(q);
            assert(quality_views(out@) =~= before.push(q@));
            assert(qualities(level_views(levels@), self.abr_state()).take(i + 1) =~= qualities(
                level_views(levels@),
                self.abr_state(),
            ).take(i as int).push(q@));
            i += 1;
        }
        assert(qualities(level_views(levels@), self.abr_state()).take(i as int) =~= qualities(
            level_views(levels@),
            self.abr_state(),
        ));
        out
    }

    /// Reads a fetched manifest: a master playlist when the text names
    /// variant streams or renditions, else a single media playlist. The URL
    /// becomes the manifest URL whether or not the text reads.
    ///
    /// For a master playlist its levels go to the ABR controller and the
    /// suggested first level is the configured start level (at most the last
    /// level) or else the middle one. A media playlist stands as one level
    /// named "Default"; its date ranges go to the metadata parser.
    pub fn load_manifest_text(&mut self, url: &str, text: &str) -> (r: Result<
        HlsStreamInfo,
        HlsError,
    >)
        requires
            is_master_text(text@) ==> !master_text_breaks(text@, url@),
            !is_master_text(text@) ==> !media_text_breaks(text@, url@),
        ensures
            final(self).url() == url@,
            final(self).start_level() == old(self).start_level(),
            final(self).recovery_attempts() == old(self).recovery_attempts(),
            old(self).well_formed() ==> final(self).well_formed(),
            is_master_text(text@) ==> match master_from_text(text@, url@) {
                None => r matches Err(e) && e.plain(
                    ErrorCategory::Manifest,
                    ErrorCode::ManifestParsingError,
                    "Invalid M3U8 playlist - missing #EXTM3U tag"@,
                ) && final(self).master() == old(self).master() && final(self).media() == old(
                    self,
                ).media() && final(self).abr_state() == old(self).abr_state()
                    && final(self).date_ranges() == old(self).date_ranges(),
                Some(m) => {
                    let s = AbrState {
                        levels: m.levels,
                        capped_levels: Some(old(self).capped(m.levels)),
                        ..old(self).abr_state()
                    };
                    &&& final(self).abr_state() == s
                    &&& final(self).master() == Some(m)
                    &&& final(self).media() == old(self).media()
                    &&& final(self).date_ranges() == old(self).date_ranges()
                    &&& r matches Ok(info) && info@ == (HlsStreamInfoV {
                        is_master: true,
                        levels: qualities(m.levels, s),
                        is_vod: true,
                        initial_level: initial_level(
                            old(self).start_level(),
                            m.levels.len(),
                        ) as usize,
                    })
                },
            },
            !is_master_text(text@) ==> match media_from_text(text@, url@) {
                None => r matches Err(e) && e.plain(
                    ErrorCategory::Manifest,
                    ErrorCode::ManifestParsingError,
                    "Invalid M3U8 playlist - missing #EXTM3U tag"@,
                ) && final(self).master() == old(self).master() && final(self).media() == old(
                    self,
                ).media() && final(self).abr_state() == old(self).abr_state()
                    && final(self).date_ranges() == old(self).date_ranges(),
                Some(p) => {
                    &&& final(self).abr_state() == (AbrState {
                        levels: seq![default_level(url@)],
                        capped_levels: Some(old(self).capped(seq![default_level(url@)])),
                        ..old(self).abr_state()
                    })
                    &&& final(self).media() == Some(p)
                    &&& final(self).master() == old(self).master()
                    &&& final(self).date_ranges() == p.date_ranges
                    &&& r matches Ok(info) && info@ == (HlsStreamInfoV {
                        is_master: false,
                        levels: seq![quality_of(default_level(url@), true)],
                        is_vod: p.is_vod,
                        initial_level: 0,
                    })
                },
            },
    {
        self.manifest_url = url.to_owned();
        if is_master_playlist(text) {
            let master = match MasterPlaylist::parse(text, url) {
                Ok(m) => m,
                Err(e) => return Err(e),
            };
            let mut levels: Vec<Level> = Vec::new();
            let mut i: usize = 0;
            while i < master.levels.len()
                invariant
                    i <= master.levels@.len(),
                    level_views(levels@) == level_views(master.levels@).take(i as int),
                decreases master.levels.len() - i,
            {
                let ghost before = level_views(levels@);
                levels.push(master.levels[i].copied());
                assert(level_views(levels@) =~= before.push(master.levels@[i as int]@));
                assert(level_views(master.levels@).take(i + 1) =~= level_views(
                    master.levels@,
                ).take(i as int).push(master.levels@[i as int]@));
                i += 1;
            }
            assert(level_views(master.levels@).take(i as int) =~= level_views(master.levels@));
            self.abr.set_levels(levels);
            let n = master.levels.len();
            let initial = if self.config.start_level >= 0 {
                let start = self.config.start_level as usize;
                let last = if n == 0 {
                    0
                } else {
                    n - 1
                };
                if start <= last {
                    start
                } else {
                    last
                }
            } else {
                n / 2
            };
            let infos = self.level_infos(&master.levels);
            self.master_playlist = Some(master);
            Ok(HlsStreamInfo { is_master: true, levels: infos, is_vod: true, initial_level: initial })
        } else {
            let media = match MediaPlaylist::parse(text, url) {
                Ok(m) => m,
                Err(e) => return Err(e),
            };
            self.metadata.set_date_ranges(copy_date_ranges(&media.date_ranges));
            let single = Level {
                index: 0,
                bitrate: 0,
                avg_bitrate: None,
                resolution: None,
                video_codec: None,
                audio_codec: None,
                codecs: None,
                frame_rate: None,
                hdcp_level: None,
                audio_group: None,
                subtitle_group: None,
                cc_group: None,
                url: url.to_owned(),
                name: "Default".to_owned(),
            };
            let info = QualityLevel::from_level(&single);
            let mut levels: Vec<Level> = Vec::new();
            levels.push(single);
            assert(level_views(levels@) =~= seq![default_level(url@)]);
            self.abr.set_levels(levels);
            let is_vod = media.is_vod;
            self.media_playlist = Some(media);
            let mut infos: Vec<QualityLevel> = Vec::new();
            infos.push(info);
            assert(quality_views(infos@) =~= seq![quality_of(default_level(url@), true)]);
            Ok(HlsStreamInfo { is_master: false, levels: infos, is_vod, initial_level: 0 })
        }
    }

    /// The playlist URL of a level of the master playlist; fails when no
    /// master playlist has been read or it has no such level.
    pub fn level_url(&self, level: usize) -> (r: Result<String, HlsError>)
        ensures
            match self.master() {
                None => r matches Err(e) && e.plain(
                    ErrorCategory::Internal,
                    ErrorCode::InternalError,
                    "No master playlist - call load_manifest first"@,
                ),
                Some(m) => if level < m.levels.len() {
                    r matches Ok(u) && u@ == m.levels[level as int].url
                } else {
                    r matches Err(e) && e.plain(
                        ErrorCategory::Manifest,
                        ErrorCode::InvalidLevelIndex,
                        level_missing_message(level),
                    )
                },
            },
    {
        match &self.master_playlist {
            None => Err(HlsError::internal("No master playlist - call load_manifest first")),
            Some(m) => {
                if level < m.levels.len() {
                    Ok(m.levels[level].url.clone())
                } else {
                    let mut msg: Vec<char> = Vec::new();
                    push_str(&mut msg, "Level ");
                    let digits = decimal_chars(level as u64);
                    push_chars(&mut msg, digits.as_slice());
                    push_str(&mut msg, " not found");
                    assert(msg@ =~= level_missing_message(level));
                    let text = string_of(msg.as_slice());
                    Err(HlsError::manifest(ErrorCode::InvalidLevelIndex, text.as_str()))
                }
            },
        }
    }

    /// Reads a fetched level playlist; it becomes the current media playlist
    /// and its date ranges go to the metadata parser.
    pub fn load_level_text(&mut self, url: &str, text: &str) -> (r: Result<(), HlsError>)
        requires
            !media_text_breaks(text@, url@),
        ensures
            final(self).url() == old(self).url(),
            final(self).master() == old(self).master(),
            final(self).abr_state() == old(self).abr_state(),
            final(self).start_level() == old(self).start_level(),
            final(self).recovery_attempts() == old(self).recovery_attempts(),
            final(self).well_formed() == old(self).well_formed(),
            match media_from_text(text@, url@) {
                None => r matches Err(e) && e.plain(
                    ErrorCategory::Manifest,
                    ErrorCode::ManifestParsingError,
                    "Invalid M3U8 playlist - missing #EXTM3U tag"@,
                ) && final(self).media() == old(self).media() && final(self).date_ranges()
                    == old(self).date_ranges(),
                Some(p) => r is Ok && final(self).media() == Some(p) && final(self).date_ranges()
                    == p.date_ranges,
            },
    {
        let media = match MediaPlaylist::parse(text, url) {
            Ok(m) => m,
            Err(e) => return Err(e),
        };
        self.metadata.set_date_ranges(copy_date_ranges(&media.date_ranges));
        self.media_playlist = Some(media);
        Ok(())
    }

    /// The current media playlist.
    pub fn media_playlist(&self) -> (r: Option<&MediaPlaylist>)
        ensures
            match r {
                Some(p) => self.media() == Some(p@),
                None => self.media() is None,
            },
    {
        match &self.media_playlist {
            Some(p) => Some(p),
            None => None,
        }
    }

    /// The quality levels of the master playlist with their current enabled
    /// status; none without a master playlist.
    pub fn get_levels(&self) -> (r: Vec<QualityLevel>)
        ensures
            quality_views(r@) == match self.master() {
                Some(m) => qualities(m.levels, self.abr_state()),
                None => Seq::empty(),
            },
    {
        match &self.master_playlist {
            Some(m) => self.level_infos(&m.levels),
            None => {
                let r: Vec<QualityLevel> = Vec::new();
                assert(quality_views(r@) =~= Seq::<QualityLevelV>::empty());
                r
            },
        }
    }

    /// The current quality level.
    pub fn current_level(&self) -> (r: usize)
        ensures
            r == self.abr_state().current_level,
    {
        self.abr.current_level()
    }

    /// Locks the quality to `level`.
    pub fn set_level(&mut self, level: usize)
        ensures
            final(self).abr_state() == (AbrState {
                mode: AbrMode::Manual(level),
                current_level: level,
                ..old(self).abr_state()
            }),
            final(self).master() == old(self).master(),
            final(self).media() == old(self).media(),
            final(self).well_formed() == old(self).well_formed(),
    {
        self.abr.set_mode(AbrMode::Manual(level));
        self.abr.set_current_level(level);
    }

    /// Turns automatic quality selection on.
    pub fn set_auto_level(&mut self)
        ensures
            final(self).abr_state() == (AbrState { mode: AbrMode::Auto, ..old(self).abr_state() }),
            final(self).master() == old(self).master(),
            final(self).media() == old(self).media(),
            final(self).well_formed() == old(self).well_formed(),
    {
        self.abr.set_mode(AbrMode::Auto);
    }

    /// Whether quality is selected automatically.
    pub fn is_auto_quality(&self) -> (r: bool)
        ensures
            r == (self.abr_state().mode == AbrMode::Auto),
    {
        match self.abr.mode() {
            AbrMode::Auto => true,
            AbrMode::Manual(_) => false,
        }
    }

    /// The next quality level to switch to, with the reason, when the ABR
    /// controller decides on a switch.
    pub fn select_next_level(&mut self, signals: AbrSignals) -> (r: Option<(usize, SwitchReason)>)
        ensures
            final(self).abr_state() == crate::hls::abr::choice(old(self).abr_state(), signals).0,
            r == match crate::hls::abr::choice(old(self).abr_state(), signals).1 {
                LevelSelection::Switch { to, reason, .. } => Some((to, reason)),
                LevelSelection::KeepCurrent => None,
            },
            final(self).master() == old(self).master(),
            final(self).media() == old(self).media(),
            final(self).well_formed() == old(self).well_formed(),
    {
        match self.abr.select_level(signals) {
            LevelSelection::Switch { to, reason, .. } => Some((to, reason)),
            LevelSelection::KeepCurrent => None,
        }
    }

    /// Completes a pending level switch.
    pub fn confirm_switch(&mut self)
        ensures
            final(self).abr_state() == confirmed(old(self).abr_state()),
            final(self).master() == old(self).master(),
            final(self).media() == old(self).media(),
            final(self).well_formed() == old(self).well_formed(),
    {
        self.abr.confirm_switch();
    }

    /// Sets the player's effective size (in device pixels) for level capping.
    pub fn set_player_size(&mut self, width: u32, height: u32)
        ensures
            final(self).abr_state() == (AbrState {
                capped_levels: Some(
                    capped_indexes(
                        old(self).abr_state().levels,
                        old(self).abr_caps(),
                        Some((width, height)),
                        old(self).abr_caps_to_player(),
                    ),
                ),
                ..old(self).abr_state()
            }),
            final(self).master() == old(self).master(),
            final(self).media() == old(self).media(),
            final(self).well_formed(),
    {
        self.abr.set_player_size(width, height);
    }

    /// Sets the quality switch mode.
    pub fn set_switch_mode(&mut self, mode: QualitySwitchMode)
        ensures
            final(self).abr_state() == (AbrState { switch_mode: mode, ..old(self).abr_state() }),
            final(self).master() == old(self).master(),
            final(self).media() == old(self).media(),
            final(self).well_formed() == old(self).well_formed(),
    {
        self.abr.set_switch_mode(mode);
    }

    /// The quality switch mode.
    pub fn switch_mode(&self) -> (r: QualitySwitchMode)
        ensures
            r == self.abr_state().switch_mode,
    {
        self.abr.switch_mode()
    }

    /// The manifest URL.
    pub fn manifest_url(&self) -> (r: &str)
        ensures
            r@ == self.url(),
    {
        self.manifest_url.as_str()
    }

    /// The URL of a segment of the current media playlist.
    pub fn get_segment_url(&self, segment_index: usize) -> (r: Option<String>)
        ensures
            match r {
                Some(u) => self.media() matches Some(p) && segment_index < p.segments.len()
                    && u@ == p.segments[segment_index as int].uri,
                None => self.media() matches Some(p) ==> segment_index >= p.segments.len(),
            },
    {
        match &self.media_playlist {
            Some(p) => {
                if segment_index < p.segments.len() {
                    Some(p.segments[segment_index].uri.clone())
                } else {
                    None
                }
            },
            None => None,
        }
    }

    /// The number of segments of the current media playlist (0 without one).
    pub fn segment_count(&self) -> (r: usize)
        ensures
            r == match self.media() {
                Some(p) => p.segments.len(),
                None => 0,
            },
    {
        match &self.media_playlist {
            Some(p) => p.segments.len(),
            None => 0,
        }
    }

    /// The URL of the current init segment, if the media playlist has one.
    pub fn get_init_segment_url(&self) -> (r: Option<String>)
        ensures
            match r {
                Some(u) => self.media() matches Some(p) && p.current_map matches Some(m) && u@
                    == m.uri,
                None => self.media() matches Some(p) ==> p.current_map is None,
            },
    {
        match &self.media_playlist {
            Some(p) => match &p.current_map {
                Some(m) => Some(m.uri.clone()),
                None => None,
            },
            None => None,
        }
    }

    /// Whether the current media playlist has an encrypted segment.
    pub fn is_encrypted(&self) -> (r: bool)
        ensures
            r == match self.media() {
                Some(p) => exists|i: int|
                    0 <= i < p.segments.len() && match #[trigger] p.segments[i].key {
                        Some(k) => k.method != EncryptionMethod::NoEncryption,
                        None => false,
                    },
                None => false,
            },
    {
        match &self.media_playlist {
            Some(p) => {
                let r = p.is_encrypted();
                proof {
                    let ps = p@.segments;
                    assert(ps.len() == p.segments@.len());
                    if r {
                        let i = choose|i: int|
                            0 <= i < p.segments@.len() && match #[trigger] p.segments@[i].key {
                                Some(k) => k.method != EncryptionMethod::NoEncryption,
                                None => false,
                            };
                        assert(ps[i] == p.segments@[i]@);
                        assert(ps[i].key == opt_key_view(p.segments@[i].key));
                        assert(match ps[i].key {
                            Some(k) => k.method != EncryptionMethod::NoEncryption,
                            None => false,
                        });
                    } else {
                        assert forall|i: int| 0 <= i < ps.len() implies !match #[trigger] ps[i].key {
                            Some(k) => k.method != EncryptionMethod::NoEncryption,
                            None => false,
                        } by {
                            assert(ps[i] == p.segments@[i]@);
                            assert(ps[i].key == opt_key_view(p.segments@[i].key));
                            assert(!match p.segments@[i].key {
                                Some(k) => k.method != EncryptionMethod::NoEncryption,
                                None => false,
                            });
                        }
                    }
                }
                r
            },
            None => false,
        }
    }

    /// Forgets any pending switch and the recovery attempts.
    pub fn reset(&mut self)
        ensures
            final(self).abr_state() == (AbrState { next_level: None, ..old(self).abr_state() }),
            final(self).recovery_attempts() == 0,
            final(self).master() == old(self).master(),
            final(self).media() == old(self).media(),
            final(self).well_formed() == old(self).well_formed(),
    {
        self.abr.reset();
        self.recovery_attempts = 0;
    }
}

impl Default for HlsController {
    /// A controller with the default configuration.
    fn default() -> (r: Self)
        ensures
            r.well_formed(),
            r.master() is None,
            r.media() is None,
            r.url() == Seq::<char>::empty(),
            r.recovery_attempts() == 0,
            r.abr_state().mode == AbrMode::Auto,
    {
        HlsController::new()
    }
}

} // verus!
