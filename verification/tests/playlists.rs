use starfin::hls::error::{ErrorCategory, ErrorCode};
use starfin::hls::master::{master_text_would_break, MasterPlaylist};
use starfin::hls::media::{media_text_would_break, MediaPlaylist};
use starfin::hls::playlist::{EncryptionMethod, RenditionType};

const MASTER: &str = "#EXTM3U
#EXT-X-MEDIA:TYPE=AUDIO,GROUP-ID=\"aud\",NAME=\"English\",LANGUAGE=\"en\",DEFAULT=YES
#EXT-X-MEDIA:TYPE=SUBTITLES,GROUP-ID=\"subs\",NAME=\"English\",URI=\"subs/en.m3u8\"
#EXT-X-STREAM-INF:BANDWIDTH=800000,RESOLUTION=640x360
low/index.m3u8
#EXT-X-STREAM-INF:BANDWIDTH=5000000,RESOLUTION=1920x1080
high/index.m3u8
#EXT-X-STREAM-INF:BANDWIDTH=2500000,RESOLUTION=1280x720
mid/index.m3u8
#EXT-X-SESSION-DATA:DATA-ID=\"com.example.title\",VALUE=\"Demo\"
";

const MEDIA: &str = "#EXTM3U
#EXT-X-VERSION:7
#EXT-X-TARGETDURATION:6
#EXT-X-MEDIA-SEQUENCE:100
#EXT-X-PLAYLIST-TYPE:VOD
#EXT-X-MAP:URI=\"init.mp4\"
#EXTINF:6.0,first
seg100.ts
#EXT-X-DISCONTINUITY
#EXT-X-BYTERANGE:500@1000
#EXTINF:5.5,
seg101.ts
#EXT-X-KEY:METHOD=AES-128,URI=\"key.bin\"
#EXTINF:4,
/abs/seg102.ts
#EXT-X-ENDLIST
";

#[test]
fn master_levels_sorted_by_bitrate_and_reindexed() {
    assert!(!master_text_would_break(MASTER, "http://cdn.example.com/video/master.m3u8"));
    let m = MasterPlaylist::parse(MASTER, "http://cdn.example.com/video/master.m3u8").unwrap();
    let bitrates: Vec<u64> = m.levels.iter().map(|l| l.bitrate).collect();
    assert_eq!(bitrates, vec![5_000_000, 2_500_000, 800_000]);
    let indexes: Vec<usize> = m.levels.iter().map(|l| l.index).collect();
    assert_eq!(indexes, vec![0, 1, 2]);
    assert_eq!(m.levels[0].url, "http://cdn.example.com/video/high/index.m3u8");
    assert_eq!(m.levels[2].name, "360p (800kbps)");
    assert_eq!(m.audio_renditions.len(), 1);
    assert_eq!(m.audio_renditions[0].media_type, RenditionType::Audio);
    assert_eq!(m.subtitle_renditions.len(), 1);
    assert_eq!(m.subtitle_renditions[0].uri.as_deref(), Some("subs/en.m3u8"));
    assert!(m.cc_renditions.is_empty());
    assert_eq!(m.session_data.len(), 1);
    assert_eq!(m.session_data[0].value.as_deref(), Some("Demo"));
}

#[test]
fn master_equal_bitrates_keep_their_order() {
    let text = "#EXTM3U\n#EXT-X-STREAM-INF:BANDWIDTH=100\na.m3u8\n#EXT-X-STREAM-INF:BANDWIDTH=100\nb.m3u8\n#EXT-X-STREAM-INF:BANDWIDTH=200\nc.m3u8\n";
    let m = MasterPlaylist::parse(text, "http://h/p/m.m3u8").unwrap();
    let urls: Vec<&str> = m.levels.iter().map(|l| l.url.as_str()).collect();
    assert_eq!(urls, vec!["http://h/p/c.m3u8", "http://h/p/a.m3u8", "http://h/p/b.m3u8"]);
}

#[test]
fn master_without_header_fails() {
    let e = MasterPlaylist::parse("#EXT-X-STREAM-INF:BANDWIDTH=1\na.m3u8", "x").unwrap_err();
    assert_eq!(e.category, ErrorCategory::Manifest);
    assert_eq!(e.code, ErrorCode::ManifestParsingError);
    assert_eq!(e.message, "Invalid M3U8 playlist - missing #EXTM3U tag");
    assert!(!e.fatal);
    assert!(MasterPlaylist::parse("", "x").is_err());
}

#[test]
fn master_queries() {
    let m = MasterPlaylist::parse(MASTER, "http://cdn.example.com/video/master.m3u8").unwrap();
    assert_eq!(m.get_level(1).map(|l| l.bitrate), Some(2_500_000));
    assert!(m.get_level(3).is_none());
    let fit: Vec<u64> = m.levels_within_resolution(1280, 720).iter().map(|l| l.bitrate).collect();
    assert_eq!(fit, vec![2_500_000, 800_000]);
    assert_eq!(m.best_level_for_bandwidth(3_000_000), Some(1));
    assert_eq!(m.best_level_for_bandwidth(10_000_000), Some(0));
    assert_eq!(m.best_level_for_bandwidth(100), None);
}

#[test]
fn master_stream_inf_waits_for_its_url() {
    let text = "#EXTM3U\n#EXT-X-STREAM-INF:BANDWIDTH=300\n\n# comment\n#EXT-X-MEDIA:TYPE=AUDIO,GROUP-ID=a\nv.m3u8\n";
    let m = MasterPlaylist::parse(text, "http://h/m.m3u8").unwrap();
    assert_eq!(m.levels.len(), 1);
    assert_eq!(m.levels[0].url, "http://h/v.m3u8");
    // the rendition line came while the stream waited for its URL
    assert!(m.audio_renditions.is_empty());
}

#[test]
fn media_segments() {
    let base = "http://cdn.example.com/video/720p/index.m3u8";
    assert!(!media_text_would_break(MEDIA, base));
    let p = MediaPlaylist::parse(MEDIA, base).unwrap();
    assert_eq!(p.target_duration.as_deref(), Some("6"));
    assert_eq!(p.media_sequence, 100);
    assert!(p.is_vod);
    assert!(p.ended);
    assert_eq!(p.playlist_type.as_deref(), Some("VOD"));
    assert_eq!(p.segments.len(), 3);
    let sns: Vec<u64> = p.segments.iter().map(|s| s.sequence_number).collect();
    assert_eq!(sns, vec![100, 101, 102]);
    assert_eq!(p.segments[0].uri, "http://cdn.example.com/video/720p/seg100.ts");
    assert_eq!(p.segments[0].duration, "6.0");
    assert_eq!(p.segments[0].title.as_deref(), Some("first"));
    assert!(!p.segments[0].discontinuity);
    assert!(p.segments[1].discontinuity);
    assert_eq!(p.segments[1].byte_range, Some((1000, 500)));
    assert_eq!(p.segments[1].title.as_deref(), Some(""));
    assert!(p.segments[1].key.is_none());
    assert_eq!(p.segments[2].uri, "http://cdn.example.com/abs/seg102.ts");
    assert_eq!(p.segments[2].key.as_ref().map(|k| k.method), Some(EncryptionMethod::Aes128));
    assert_eq!(
        p.current_map.as_ref().map(|m| m.uri.as_str()),
        Some("http://cdn.example.com/video/720p/init.mp4")
    );
    assert!(p.is_encrypted());
    assert_eq!(p.segment_by_sn(101).map(|s| s.uri.as_str()), Some("http://cdn.example.com/video/720p/seg101.ts"));
    assert!(p.segment_by_sn(99).is_none());
}

#[test]
fn media_live_without_endlist() {
    let text = "#EXTM3U\n#EXT-X-TARGETDURATION:4\n#EXTINF:4.0,\na.ts\n";
    let p = MediaPlaylist::parse(text, "http://h/l.m3u8").unwrap();
    assert!(!p.is_vod);
    assert!(!p.ended);
    assert!(!p.is_encrypted());
    assert_eq!(p.segments[0].sequence_number, 0);
}

#[test]
fn media_event_playlist_with_endlist_is_not_vod() {
    let text = "#EXTM3U\n#EXT-X-PLAYLIST-TYPE:EVENT\n#EXTINF:4.0,\na.ts\n#EXT-X-ENDLIST\n";
    let p = MediaPlaylist::parse(text, "http://h/l.m3u8").unwrap();
    assert!(p.ended);
    assert!(!p.is_vod);
}

#[test]
fn media_uri_without_duration_is_skipped() {
    let text = "#EXTM3U\n#EXTINF:abc,\nbad.ts\n#EXTINF:2,\ngood.ts\n";
    let p = MediaPlaylist::parse(text, "http://h/l.m3u8").unwrap();
    assert_eq!(p.segments.len(), 1);
    assert_eq!(p.segments[0].uri, "http://h/good.ts");
}

#[test]
fn media_key_method_none_is_not_encrypted() {
    let text = "#EXTM3U\n#EXT-X-KEY:METHOD=NONE\n#EXTINF:2,\na.ts\n";
    let p = MediaPlaylist::parse(text, "http://h/l.m3u8").unwrap();
    assert!(!p.is_encrypted());
}

#[test]
fn media_low_latency_tags() {
    let text = "#EXTM3U\n#EXT-X-START:TIME-OFFSET=-12.5\n#EXT-X-PART-INF:PART-TARGET=1.004\n#EXT-X-SERVER-CONTROL:CAN-BLOCK-RELOAD=YES,PART-HOLD-BACK=3.012\n#EXT-X-DATERANGE:ID=\"d\",START-DATE=\"2024-01-01\"\n";
    let p = MediaPlaylist::parse(text, "http://h/l.m3u8").unwrap();
    assert_eq!(p.start_offset.as_deref(), Some("-12.5"));
    assert_eq!(p.part_inf.as_ref().and_then(|x| x.part_target.clone()).as_deref(), Some("1.004"));
    let sc = p.server_control.as_ref().unwrap();
    assert!(sc.can_block_reload);
    assert_eq!(sc.part_hold_back.as_deref(), Some("3.012"));
    assert!(sc.hold_back.is_none());
    assert_eq!(p.date_ranges.len(), 1);
    assert_eq!(p.date_ranges[0].id, "d");
}

#[test]
fn media_without_header_fails() {
    let e = MediaPlaylist::parse("#EXTINF:1,\na.ts", "x").unwrap_err();
    assert_eq!(e.code, ErrorCode::ManifestParsingError);
}

#[test]
fn media_key_iv_that_would_break() {
    let text = "#EXTM3U\n#EXT-X-KEY:METHOD=AES-128,IV=€a\n";
    assert!(media_text_would_break(text, "x"));
    let master = "#EXTM3U\n#EXT-X-SESSION-KEY:METHOD=AES-128,IV=€a\n";
    assert!(master_text_would_break(master, "x"));
    // a session key read while a stream waits for its URL is passed over
    let waiting = "#EXTM3U\n#EXT-X-STREAM-INF:BANDWIDTH=1\n#EXT-X-SESSION-KEY:METHOD=AES-128,IV=€a\n";
    assert!(!master_text_would_break(waiting, "x"));
}
