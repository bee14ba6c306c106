use starfin::hls::abr::{AbrController, AbrMode, AbrSignals, BandwidthBudget, LevelSelection, SwitchReason};
use starfin::hls::config::{HlsConfig, LevelCapConfig, QualitySwitchMode};
use starfin::hls::controller::HlsController;
use starfin::hls::error::{ErrorCategory, ErrorCode};
use starfin::hls::master::MasterPlaylist;
use starfin::hls::playlist::Level;

const MASTER: &str = "#EXTM3U
#EXT-X-STREAM-INF:BANDWIDTH=800000,RESOLUTION=640x360
low.m3u8
#EXT-X-STREAM-INF:BANDWIDTH=5000000,RESOLUTION=1920x1080
high.m3u8
#EXT-X-STREAM-INF:BANDWIDTH=2500000,RESOLUTION=1280x720
mid.m3u8
";

fn levels() -> Vec<Level> {
    MasterPlaylist::parse(MASTER, "http://h/master.m3u8").unwrap().levels
}

fn quiet() -> AbrSignals {
    AbrSignals {
        cooling_down: false,
        too_many_dropped: false,
        bandwidth: None,
        buffer_critical: false,
        buffer_allows_up: true,
    }
}

fn with_bandwidth(normal: u64, emergency: u64) -> AbrSignals {
    AbrSignals { bandwidth: Some(BandwidthBudget { emergency, normal }), ..quiet() }
}

fn instant_config() -> HlsConfig {
    let mut c = HlsConfig::new();
    c.quality_switch_mode = QualitySwitchMode::Instant;
    c
}

#[test]
fn config_defaults() {
    let c = HlsConfig::new();
    assert_eq!(c.start_level, -1);
    assert!(c.abr_enabled);
    assert_eq!(c.quality_switch_mode, QualitySwitchMode::Smooth);
    assert!(c.cap_level_to_player_size);
    assert_eq!(c.frag_load_max_retry, 6);
    assert_eq!(c.max_retry_delay, 8000);
    assert!(HlsConfig::low_latency().low_latency_mode);
    assert_eq!(
        HlsConfig::bandwidth_conservative().quality_switch_mode,
        QualitySwitchMode::BandwidthConservative
    );
    assert_eq!(QualitySwitchMode::default(), QualitySwitchMode::Smooth);
    assert_eq!(AbrMode::default(), AbrMode::Auto);
    let d = HlsConfig::default();
    assert_eq!(d.retry_delay, 1000);
}

#[test]
fn abr_mode_follows_start_level() {
    let a = AbrController::new(&HlsConfig::new());
    assert_eq!(a.mode(), AbrMode::Auto);
    let mut c = HlsConfig::new();
    c.start_level = 2;
    let m = AbrController::new(&c);
    assert_eq!(m.mode(), AbrMode::Manual(2));
    assert_eq!(m.current_level(), 0);
    // no capping computed yet: every level is allowed
    assert!(m.is_level_allowed(7));
    assert!(m.allowed_levels().is_empty());
}

#[test]
fn abr_capping_by_player_size() {
    let mut a = AbrController::new(&HlsConfig::new());
    a.set_levels(levels());
    assert_eq!(a.allowed_levels(), &[0, 1, 2]);
    a.set_player_size(1280, 720);
    assert_eq!(a.allowed_levels(), &[1, 2]);
    assert!(!a.is_level_allowed(0));
    // nothing fits: the lowest bitrate level stays allowed
    a.set_player_size(100, 100);
    assert_eq!(a.allowed_levels(), &[2]);
}

#[test]
fn abr_capping_by_bitrate_and_hdcp() {
    let mut c = HlsConfig::new();
    c.level_cap = LevelCapConfig { max_width: 0, max_height: 0, max_bitrate: 3_000_000, hdcp_level: None };
    let mut a = AbrController::new(&c);
    a.set_levels(levels());
    assert_eq!(a.allowed_levels(), &[1, 2]);
    let mut h = HlsConfig::new();
    h.level_cap = LevelCapConfig::new();
    h.level_cap.hdcp_level = Some("NONE".to_string());
    let text = "#EXTM3U\n#EXT-X-STREAM-INF:BANDWIDTH=2,HDCP-LEVEL=TYPE-1\na.m3u8\n#EXT-X-STREAM-INF:BANDWIDTH=1,HDCP-LEVEL=NONE\nb.m3u8\n";
    let mut b = AbrController::new(&h);
    b.set_levels(MasterPlaylist::parse(text, "http://h/").unwrap().levels);
    assert_eq!(b.allowed_levels(), &[1]);
}

// Levels are indexed from the highest bitrate down, and the switch reasons
// compare level indexes: a move to a higher index is labelled an increase.
#[test]
fn abr_auto_switch_by_bandwidth() {
    let mut a = AbrController::new(&instant_config());
    a.set_levels(levels());
    a.set_current_level(2);
    let s1 = a.select_level(with_bandwidth(3_000_000, 0));
    assert_eq!(s1, LevelSelection::Switch { from: 2, to: 1, reason: SwitchReason::BandwidthDecrease });
    assert_eq!(a.current_level(), 1);
    let s2 = a.select_level(with_bandwidth(1_000_000, 0));
    assert_eq!(s2, LevelSelection::Switch { from: 1, to: 2, reason: SwitchReason::BandwidthIncrease });
    let same = a.select_level(with_bandwidth(1_000_000, 0));
    assert_eq!(same, LevelSelection::KeepCurrent);
}

#[test]
fn abr_switch_to_higher_index_needs_buffer() {
    let mut a = AbrController::new(&instant_config());
    a.set_levels(levels());
    a.set_current_level(0);
    let s = AbrSignals { buffer_allows_up: false, ..with_bandwidth(1_000_000, 0) };
    assert_eq!(a.select_level(s), LevelSelection::KeepCurrent);
    assert_eq!(a.current_level(), 0);
    let t = with_bandwidth(1_000_000, 0);
    assert_eq!(a.select_level(t), LevelSelection::Switch { from: 0, to: 2, reason: SwitchReason::BandwidthIncrease });
}

#[test]
fn abr_emergency_switch_when_buffer_is_critical() {
    let mut a = AbrController::new(&instant_config());
    a.set_levels(levels());
    a.set_current_level(2);
    let s = AbrSignals { buffer_critical: true, ..with_bandwidth(0, 10_000_000) };
    assert_eq!(a.select_level(s), LevelSelection::Switch { from: 2, to: 0, reason: SwitchReason::Emergency });
    // an emergency level at a higher index than the current one is passed over
    let mut b = AbrController::new(&instant_config());
    b.set_levels(levels());
    b.set_current_level(1);
    let t = AbrSignals { buffer_critical: true, ..with_bandwidth(2_500_000, 900_000) };
    assert_eq!(b.select_level(t), LevelSelection::KeepCurrent);
}

#[test]
fn abr_dropped_frames_switch_down() {
    let mut a = AbrController::new(&instant_config());
    a.set_levels(levels());
    a.set_current_level(0);
    let s = AbrSignals { too_many_dropped: true, ..quiet() };
    assert_eq!(
        a.select_level(s),
        LevelSelection::Switch { from: 0, to: 1, reason: SwitchReason::DroppedFrames }
    );
}

#[test]
fn abr_no_estimate_keeps_level() {
    let mut a = AbrController::new(&instant_config());
    a.set_levels(levels());
    assert_eq!(a.select_level(quiet()), LevelSelection::KeepCurrent);
}

#[test]
fn abr_cooldown_keeps_level() {
    let mut a = AbrController::new(&instant_config());
    a.set_levels(levels());
    a.set_current_level(2);
    let s = AbrSignals { cooling_down: true, ..with_bandwidth(10_000_000, 0) };
    assert_eq!(a.select_level(s), LevelSelection::KeepCurrent);
}

#[test]
fn abr_smooth_switch_waits_for_confirmation() {
    let mut a = AbrController::new(&HlsConfig::new());
    a.set_levels(levels());
    a.set_current_level(2);
    let s = a.select_level(with_bandwidth(6_000_000, 0));
    assert_eq!(s, LevelSelection::Switch { from: 2, to: 0, reason: SwitchReason::BandwidthDecrease });
    assert_eq!(a.current_level(), 2);
    assert_eq!(a.next_load_level(), 0);
    a.confirm_switch();
    assert_eq!(a.current_level(), 0);
    assert_eq!(a.next_load_level(), 0);
    a.reset();
    assert_eq!(a.next_load_level(), 0);
}

#[test]
fn abr_manual_mode() {
    let mut a = AbrController::new(&instant_config());
    a.set_levels(levels());
    a.set_mode(AbrMode::Manual(1));
    assert_eq!(a.select_level(quiet()), LevelSelection::Switch { from: 0, to: 1, reason: SwitchReason::Manual });
    assert_eq!(a.select_level(quiet()), LevelSelection::KeepCurrent);
    a.set_current_level(2);
    assert_eq!(a.mode(), AbrMode::Manual(2));
    a.set_player_size(100, 100);
    a.set_mode(AbrMode::Manual(0));
    assert_eq!(a.select_level(quiet()), LevelSelection::KeepCurrent);
}

#[test]
fn controller_loads_master_manifest() {
    let mut c = HlsController::new();
    assert!(c.is_auto_quality());
    let info = c.load_manifest_text("http://h/master.m3u8", MASTER).unwrap();
    assert!(info.is_master);
    assert!(info.is_vod);
    assert_eq!(info.initial_level, 1);
    assert_eq!(info.levels.len(), 3);
    assert_eq!(info.levels[0].name, "1080p (5000kbps)");
    assert_eq!(info.levels[0].resolution, Some((1920, 1080)));
    assert!(info.levels.iter().all(|l| l.enabled));
    assert_eq!(c.manifest_url(), "http://h/master.m3u8");
    assert_eq!(c.level_url(2).unwrap(), "http://h/low.m3u8");
    let e = c.level_url(3).unwrap_err();
    assert_eq!(e.code, ErrorCode::InvalidLevelIndex);
    assert_eq!(e.message, "Level 3 not found");
    c.set_player_size(1280, 720);
    let ls = c.get_levels();
    assert!(!ls[0].enabled && ls[1].enabled && ls[2].enabled);
}

#[test]
fn controller_start_level_is_capped_to_last() {
    let mut cfg = HlsConfig::new();
    cfg.start_level = 9;
    let mut c = HlsController::with_config(cfg);
    let info = c.load_manifest_text("http://h/master.m3u8", MASTER).unwrap();
    assert_eq!(info.initial_level, 2);
    assert!(!c.is_auto_quality());
}

#[test]
fn controller_loads_media_manifest() {
    let media = "#EXTM3U\n#EXT-X-MAP:URI=\"init.mp4\"\n#EXTINF:4,\na.ts\n#EXTINF:4,\nb.ts\n#EXT-X-ENDLIST\n";
    let mut c = HlsController::new();
    let info = c.load_manifest_text("http://h/v/index.m3u8", media).unwrap();
    assert!(!info.is_master);
    assert!(info.is_vod);
    assert_eq!(info.initial_level, 0);
    assert_eq!(info.levels.len(), 1);
    assert_eq!(info.levels[0].name, "Default");
    assert_eq!(info.levels[0].bitrate, 0);
    assert_eq!(c.segment_count(), 2);
    assert_eq!(c.get_segment_url(1).as_deref(), Some("http://h/v/b.ts"));
    assert!(c.get_segment_url(2).is_none());
    assert_eq!(c.get_init_segment_url().as_deref(), Some("http://h/v/init.mp4"));
    assert!(!c.is_encrypted());
    assert!(c.get_levels().is_empty());
    let e = c.level_url(0).unwrap_err();
    assert_eq!(e.category, ErrorCategory::Internal);
    assert_eq!(e.message, "No master playlist - call load_manifest first");
}

#[test]
fn controller_manifest_error_keeps_url() {
    let mut c = HlsController::new();
    let e = c.load_manifest_text("http://h/bad.m3u8", "not a playlist").unwrap_err();
    assert_eq!(e.code, ErrorCode::ManifestParsingError);
    assert_eq!(c.manifest_url(), "http://h/bad.m3u8");
    assert_eq!(c.segment_count(), 0);
}

#[test]
fn controller_level_playlist_and_switching() {
    let mut c = HlsController::with_config(instant_config());
    c.load_manifest_text("http://h/master.m3u8", MASTER).unwrap();
    let level_text = "#EXTM3U\n#EXT-X-KEY:METHOD=AES-128,URI=\"k\"\n#EXTINF:6,\ns1.ts\n";
    c.load_level_text("http://h/mid.m3u8", level_text).unwrap();
    assert!(c.is_encrypted());
    assert_eq!(c.media_playlist().map(|p| p.segments.len()), Some(1));
    c.set_level(2);
    assert!(!c.is_auto_quality());
    assert_eq!(c.current_level(), 2);
    c.set_auto_level();
    assert_eq!(
        c.select_next_level(with_bandwidth(3_000_000, 0)),
        Some((1, SwitchReason::BandwidthDecrease))
    );
    assert_eq!(c.current_level(), 1);
    c.set_switch_mode(QualitySwitchMode::Smooth);
    assert_eq!(c.switch_mode(), QualitySwitchMode::Smooth);
    assert_eq!(c.select_next_level(with_bandwidth(10_000_000, 0)), Some((0, SwitchReason::BandwidthDecrease)));
    assert_eq!(c.current_level(), 1);
    c.confirm_switch();
    assert_eq!(c.current_level(), 0);
    c.reset();
    assert_eq!(c.current_level(), 0);
}
