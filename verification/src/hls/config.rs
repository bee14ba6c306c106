//! HLS configuration options (the integer and switch settings; durations and
//! ratios are kept by the embedding player).
use vstd::prelude::*;

verus! {

/// Quality switching mode for adaptive streaming.
#[derive(Clone, Copy, Debug, PartialEq, Eq, Structural)]
pub enum QualitySwitchMode {
    /// Immediate quality switch at the current video position
    Instant,
    /// Quality switch for the next loaded fragment
    Smooth,
    /// Quality switch for the next loaded fragment without flushing the buffer
    BandwidthConservative,
}

impl Default for QualitySwitchMode {
    /// The default mode: `Smooth`.
    fn default() -> (r: Self)
        ensures
            r == QualitySwitchMode::Smooth,
    {
        QualitySwitchMode::Smooth
    }
}

/// Level capping configuration.
#[derive(Clone, Debug)]
pub struct LevelCapConfig {
    /// Maximum width for level capping (0 = disabled)
    pub max_width: u32,
    /// Maximum height for level capping (0 = disabled)
    pub max_height: u32,
    /// Maximum bitrate in bits per second (0 = disabled)
    pub max_bitrate: u64,
    /// HDCP level requirement (None = no requirement)
    pub hdcp_level: Option<String>,
}

impl LevelCapConfig {
    /// No caps at all.
    pub fn new() -> (r: Self)
        ensures
            r.max_width == 0,
            r.max_height == 0,
            r.max_bitrate == 0,
            r.hdcp_level is None,
    {
        LevelCapConfig { max_width: 0, max_height: 0, max_bitrate: 0, hdcp_level: None }
    }
}

/// Configuration of the HLS player.
#[derive(Clone, Debug)]
pub struct HlsConfig {
    /// Whether to start loading automatically
    pub auto_start_load: bool,
    /// Default audio codec preference
    pub default_audio_codec: Option<String>,
    /// Maximum buffer size in bytes (0 = unlimited)
    pub max_buffer_size: u64,
    /// Enable adaptive bitrate streaming
    pub abr_enabled: bool,
    /// Starting quality level (-1 for auto)
    pub start_level: i32,
    /// ABR bandwidth estimation window in ms
    pub abr_ema_slow_time: u32,
    /// ABR bandwidth estimation fast window in ms
    pub abr_ema_fast_time: u32,
    /// Quality switch mode
    pub quality_switch_mode: QualitySwitchMode,
    /// Level capping configuration
    pub level_cap: LevelCapConfig,
    /// Cap level to player size
    pub cap_level_to_player_size: bool,
    /// Maximum retries for manifest load
    pub manifest_load_max_retry: u32,
    /// Maximum retries for level/playlist load
    pub level_load_max_retry: u32,
    /// Maximum retries for fragment load
    pub frag_load_max_retry: u32,
    /// Retry delay in milliseconds
    pub retry_delay: u32,
    /// Maximum retry delay in milliseconds
    pub max_retry_delay: u32,
    /// Manifest load timeout in milliseconds
    pub manifest_load_timeout: u32,
    /// Level/playlist load timeout in milliseconds
    pub level_load_timeout: u32,
    /// Fragment load timeout in milliseconds
    pub frag_load_timeout: u32,
    /// Enable low latency mode for LL-HLS
    pub low_latency_mode: bool,
    /// Enable debug logging
    pub debug: bool,
}

/// The default configuration.
pub open spec fn is_default_config(c: HlsConfig) -> bool {
    &&& c.auto_start_load
    &&& c.default_audio_codec is None
    &&& c.max_buffer_size == 0
    &&& c.abr_enabled
    &&& c.start_level == -1
    &&& c.abr_ema_slow_time == 5000
    &&& c.abr_ema_fast_time == 2000
    &&& c.quality_switch_mode == QualitySwitchMode::Smooth
    &&& c.level_cap.max_width == 0
    &&& c.level_cap.max_height == 0
    &&& c.level_cap.max_bitrate == 0
    &&& c.level_cap.hdcp_level is None
    &&& c.cap_level_to_player_size
    &&& c.manifest_load_max_retry == 3
    &&& c.level_load_max_retry == 3
    &&& c.frag_load_max_retry == 6
    &&& c.retry_delay == 1000
    &&& c.max_retry_delay == 8000
    &&& c.manifest_load_timeout == 10000
    &&& c.level_load_timeout == 10000
    &&& c.frag_load_timeout == 20000
    &&& !c.low_latency_mode
    &&& !c.debug
}

impl HlsConfig {
    /// The default configuration.
    pub fn new() -> (r: Self)
        ensures
            is_default_config(r),
    {
        HlsConfig {
            auto_start_load: true,
            default_audio_codec: None,
            max_buffer_size: 0,
            abr_enabled: true,
            start_level: -1,
            abr_ema_slow_time: 5000,
            abr_ema_fast_time: 2000,
            quality_switch_mode: QualitySwitchMode::default(),
            level_cap: LevelCapConfig::new(),
            cap_level_to_player_size: true,
            manifest_load_max_retry: 3,
            level_load_max_retry: 3,
            frag_load_max_retry: 6,
            retry_delay: 1000,
            max_retry_delay: 8000,
            manifest_load_timeout: 10000,
            level_load_timeout: 10000,
            frag_load_timeout: 20000,
            low_latency_mode: false,
            debug: false,
        }
    }

    /// A configuration for low-latency streaming: the defaults with low latency mode on.
    pub fn low_latency() -> (r: Self)
        ensures
            is_default_config(HlsConfig { low_latency_mode: false, ..r }),
            r.low_latency_mode,
    {
        let mut c = Self::new();
        c.low_latency_mode = true;
        c
    }

    /// A configuration that saves bandwidth: the defaults with bandwidth-conservative switching.
    pub fn bandwidth_conservative() -> (r: Self)
        ensures
            is_default_config(HlsConfig { quality_switch_mode: QualitySwitchMode::Smooth, ..r }),
            r.quality_switch_mode == QualitySwitchMode::BandwidthConservative,
    {
        let mut c = Self::new();
        c.quality_switch_mode = QualitySwitchMode::BandwidthConservative;
        c
    }
}

impl Default for LevelCapConfig {
    /// No caps at all.
    fn default() -> (r: Self)
        ensures
            r.max_width == 0,
            r.max_height == 0,
            r.max_bitrate == 0,
            r.hdcp_level is None,
    {
        LevelCapConfig::new()
    }
}

impl Default for HlsConfig {
    /// The default configuration.
    fn default() -> (r: Self)
        ensures
            is_default_config(r),
    {
        HlsConfig::new()
    }
}

} // verus!
