use starfin::attributes::parse_attributes;
use starfin::hex::{hex_lenient_would_break, hex_strict_would_break, parse_hex, parse_hex_string};
use starfin::hls::playlist::{
    hdcp_rank_of_upper, hdcp_value, is_master_playlist, names_audio_codec, names_video_codec,
    rendition_type_from_upper, key_iv_would_break, parse_byte_range, parse_codecs,
    parse_date_range, parse_key_info, parse_session_data, resolve_url, EncryptionMethod, Level,
    Rendition, RenditionType, Resolution,
};

fn chars(s: &str) -> Vec<char> {
    s.chars().collect()
}

fn text(c: &[char]) -> String {
    c.iter().collect()
}

#[test]
fn attributes_quoted_and_plain_values() {
    let a = parse_attributes("BANDWIDTH=1280000,RESOLUTION=1280x720,CODECS=\"avc1.4d401f,mp4a.40.2\"");
    assert_eq!(text(a.get("BANDWIDTH").unwrap()), "1280000");
    assert_eq!(text(a.get("RESOLUTION").unwrap()), "1280x720");
    assert_eq!(text(a.get("CODECS").unwrap()), "avc1.4d401f,mp4a.40.2");
    assert!(a.get("FRAME-RATE").is_none());
}

#[test]
fn attributes_later_value_replaces_earlier() {
    let a = parse_attributes("A=1, A=2");
    assert_eq!(text(a.get("A").unwrap()), "2");
    let entries = a.entries();
    assert_eq!(entries.len(), 1);
    assert_eq!(entries[0], ("A".to_string(), "2".to_string()));
}

#[test]
fn attributes_empty_line() {
    let a = parse_attributes("");
    assert!(a.entries().is_empty());
}

#[test]
fn resolution_parse_and_pixels() {
    let r = Resolution::parse("1920x1080").unwrap();
    assert_eq!((r.width, r.height), (1920, 1080));
    assert_eq!(r.pixels(), 2_073_600);
    assert!(Resolution::parse("1920").is_none());
    assert!(Resolution::parse("1920x1080x3").is_none());
    assert!(Resolution::parse("axb").is_none());
    let n = Resolution::new(4, 3);
    assert_eq!(n.pixels(), 12);
}

#[test]
fn hdcp_values_ignore_case() {
    assert_eq!(hdcp_value(&chars("NONE")), 0);
    assert_eq!(hdcp_value(&chars("type-0")), 1);
    assert_eq!(hdcp_value(&chars("TYPE-1")), 2);
    assert_eq!(hdcp_value(&chars("other")), 0);
}

#[test]
fn codecs_split_into_video_and_audio() {
    let (v, a) = parse_codecs(&chars("avc1.4d401f, mp4a.40.2"));
    assert_eq!(v.as_deref(), Some("avc1.4d401f"));
    assert_eq!(a.as_deref(), Some("mp4a.40.2"));
    let (v, a) = parse_codecs(&chars("HEV1.1.6.L93,ec-3"));
    assert_eq!(v.as_deref(), Some("HEV1.1.6.L93"));
    assert_eq!(a.as_deref(), Some("ec-3"));
    let (v, a) = parse_codecs(&chars("wvtt"));
    assert!(v.is_none() && a.is_none());
    // the last codec of each kind wins
    let (v, _) = parse_codecs(&chars("avc1.1,vp09.2"));
    assert_eq!(v.as_deref(), Some("vp09.2"));
}

#[test]
fn level_from_stream_info() {
    let a = parse_attributes(
        "BANDWIDTH=2500000,AVERAGE-BANDWIDTH=2000000,RESOLUTION=1280x720,CODECS=\"avc1.64001f,mp4a.40.2\",FRAME-RATE=29.970,HDCP-LEVEL=TYPE-0,AUDIO=\"aud\"",
    );
    let l = Level::from_stream_inf(3, &a, "http://cdn/720p.m3u8");
    assert_eq!(l.index, 3);
    assert_eq!(l.bitrate, 2_500_000);
    assert_eq!(l.avg_bitrate, Some(2_000_000));
    assert_eq!(l.resolution.as_ref().map(|r| (r.width, r.height)), Some((1280, 720)));
    assert_eq!(l.video_codec.as_deref(), Some("avc1.64001f"));
    assert_eq!(l.audio_codec.as_deref(), Some("mp4a.40.2"));
    assert_eq!(l.frame_rate.as_deref(), Some("29.970"));
    assert_eq!(l.hdcp_level.as_deref(), Some("TYPE-0"));
    assert_eq!(l.audio_group.as_deref(), Some("aud"));
    assert_eq!(l.url, "http://cdn/720p.m3u8");
    assert_eq!(l.name, "720p (2500kbps)");
}

#[test]
fn level_name_without_resolution() {
    let a = parse_attributes("BANDWIDTH=640000");
    let l = Level::from_stream_inf(0, &a, "low.m3u8");
    assert_eq!(l.name, "640kbps");
    let b = parse_attributes("RESOLUTION=foo");
    let m = Level::from_stream_inf(0, &b, "x");
    assert_eq!(m.bitrate, 0);
    assert_eq!(m.name, "0kbps");
}

#[test]
fn level_fits_resolution_zero_means_no_limit() {
    let a = parse_attributes("BANDWIDTH=1,RESOLUTION=1920x1080");
    let l = Level::from_stream_inf(0, &a, "x");
    assert!(l.fits_resolution(0, 0));
    assert!(l.fits_resolution(1920, 0));
    assert!(!l.fits_resolution(1280, 0));
    assert!(l.fits_resolution(0, 1080));
    assert!(!l.fits_resolution(0, 720));
    let u = Level::from_stream_inf(0, &parse_attributes("BANDWIDTH=1"), "x");
    assert!(u.fits_resolution(10, 10));
}

#[test]
fn level_hdcp_compatibility() {
    let l = Level::from_stream_inf(0, &parse_attributes("HDCP-LEVEL=TYPE-1"), "x");
    assert!(l.is_hdcp_compatible(None));
    assert!(!l.is_hdcp_compatible(Some("TYPE-0")));
    assert!(l.is_hdcp_compatible(Some("type-1")));
    let n = Level::from_stream_inf(0, &parse_attributes("BANDWIDTH=1"), "x");
    assert!(n.is_hdcp_compatible(Some("NONE")));
}

#[test]
fn rendition_parse() {
    let a = parse_attributes(
        "TYPE=AUDIO,GROUP-ID=\"aac\",NAME=\"English\",LANGUAGE=\"en\",DEFAULT=YES,AUTOSELECT=yes,URI=\"en.m3u8\"",
    );
    let r = Rendition::parse(&a).unwrap();
    assert_eq!(r.media_type, RenditionType::Audio);
    assert_eq!(r.group_id, "aac");
    assert_eq!(r.name, "English");
    assert_eq!(r.language.as_deref(), Some("en"));
    assert!(r.default && r.autoselect && !r.forced);
    assert_eq!(r.uri.as_deref(), Some("en.m3u8"));
    let cc = Rendition::parse(&parse_attributes("TYPE=closed-captions,GROUP-ID=cc")).unwrap();
    assert_eq!(cc.media_type, RenditionType::ClosedCaptions);
    assert_eq!(cc.name, "");
    assert!(Rendition::parse(&parse_attributes("TYPE=OTHER,GROUP-ID=x")).is_none());
    assert!(Rendition::parse(&parse_attributes("TYPE=AUDIO")).is_none());
    assert!(Rendition::parse(&parse_attributes("GROUP-ID=x")).is_none());
}

#[test]
fn encryption_methods() {
    assert_eq!(EncryptionMethod::parse("AES-128"), EncryptionMethod::Aes128);
    assert_eq!(EncryptionMethod::parse("sample-aes"), EncryptionMethod::SampleAes);
    assert_eq!(EncryptionMethod::parse("SAMPLE-AES-CTR"), EncryptionMethod::SampleAesCtr);
    assert_eq!(EncryptionMethod::parse("SAMPLE-AES-CENC"), EncryptionMethod::SampleAesCenc);
    assert_eq!(EncryptionMethod::parse("NONE"), EncryptionMethod::NoEncryption);
    assert_eq!(EncryptionMethod::parse("bogus"), EncryptionMethod::NoEncryption);
}

#[test]
fn key_info_with_iv() {
    let a = parse_attributes("METHOD=AES-128,URI=\"key.bin\",IV=0x000102030405060708090A0B0C0D0E0F");
    assert!(!key_iv_would_break(&a));
    let k = parse_key_info(&a).unwrap();
    assert_eq!(k.method, EncryptionMethod::Aes128);
    assert_eq!(k.uri.as_deref(), Some("key.bin"));
    assert_eq!(k.iv, Some((0u8..16).collect::<Vec<u8>>()));
    assert!(parse_key_info(&parse_attributes("URI=\"k\"")).is_none());
    let odd = parse_key_info(&parse_attributes("METHOD=AES-128,IV=0x123")).unwrap();
    assert_eq!(odd.iv, None);
}

#[test]
fn key_iv_that_would_break() {
    // a three-byte character at the start of the IV
    let a = parse_attributes("METHOD=AES-128,IV=€a");
    assert!(key_iv_would_break(&a));
}

#[test]
fn hex_strings() {
    assert_eq!(parse_hex_string(&chars("0xFF00")), Some(vec![0xff, 0x00]));
    assert_eq!(parse_hex_string(&chars("abcd")), Some(vec![0xab, 0xcd]));
    assert_eq!(parse_hex_string(&chars("0x0Xab")), Some(vec![0xab]));
    assert_eq!(parse_hex_string(&chars("abc")), None);
    assert_eq!(parse_hex_string(&chars("zz")), None);
    assert_eq!(parse_hex_string(&chars("+f")), Some(vec![0x0f]));
    assert_eq!(parse_hex_string(&chars("")), Some(vec![]));
    assert!(!hex_strict_would_break(&chars("0xabcd")));
    assert!(hex_strict_would_break(&chars("€a")));
}

#[test]
fn hex_lenient() {
    assert_eq!(parse_hex(&chars("0xFC302F")), vec![0xfc, 0x30, 0x2f]);
    assert_eq!(parse_hex(&chars("zz01")), vec![0x01]);
    assert!(!hex_lenient_would_break(&chars("0x0102")));
    assert!(hex_lenient_would_break(&chars("012")));
}

#[test]
fn byte_ranges() {
    assert_eq!(parse_byte_range(&chars("1000@200")), Some((200, 1000)));
    assert_eq!(parse_byte_range(&chars("1000")), Some((0, 1000)));
    assert_eq!(parse_byte_range(&chars("1000@x")), Some((0, 1000)));
    assert_eq!(parse_byte_range(&chars("x@5")), None);
}

#[test]
fn session_data() {
    let d = parse_session_data(&parse_attributes("DATA-ID=\"com.title\",VALUE=\"Movie\",LANGUAGE=\"en\""))
        .unwrap();
    assert_eq!(d.data_id, "com.title");
    assert_eq!(d.value.as_deref(), Some("Movie"));
    assert_eq!(d.language.as_deref(), Some("en"));
    assert!(d.uri.is_none());
    assert!(parse_session_data(&parse_attributes("VALUE=\"x\"")).is_none());
}

#[test]
fn date_range_tag() {
    let d = parse_date_range(&parse_attributes(
        "ID=\"ad1\",CLASS=\"ads\",START-DATE=\"2024-01-01T00:00:00Z\",DURATION=30.5,END-ON-NEXT=YES,X-COM-ID=\"42\",SCTE35-OUT=0xFC30",
    ))
    .unwrap();
    assert_eq!(d.id, "ad1");
    assert_eq!(d.class.as_deref(), Some("ads"));
    assert_eq!(d.start_date, "2024-01-01T00:00:00Z");
    assert_eq!(d.duration.as_deref(), Some("30.5"));
    assert!(d.end_on_next);
    assert_eq!(d.scte35_out.as_deref(), Some("0xFC30"));
    assert_eq!(text(d.client_attributes.get("X-COM-ID").unwrap()), "42");
    assert!(d.client_attributes.get("CLASS").is_none());
    assert!(parse_date_range(&parse_attributes("ID=\"x\"")).is_none());
}

#[test]
fn resolve_urls() {
    assert_eq!(resolve_url("http://a.com/b/c.m3u8", "https://x.com/y"), "https://x.com/y");
    assert_eq!(resolve_url("http://a.com/b/c.m3u8", "/seg.ts"), "http://a.com/seg.ts");
    assert_eq!(resolve_url("http://a.com", "/seg.ts"), "http://a.com/seg.ts");
    assert_eq!(resolve_url("dir/", "/seg.ts"), "dir/seg.ts");
    assert_eq!(resolve_url("http://a.com/b/c.m3u8", "seg1.ts"), "http://a.com/b/seg1.ts");
    assert_eq!(resolve_url("playlist.m3u8", "seg1.ts"), "playlist.m3u8seg1.ts");
}

#[test]
fn master_detection() {
    assert!(is_master_playlist("#EXTM3U\n#EXT-X-STREAM-INF:BANDWIDTH=1\na.m3u8"));
    assert!(is_master_playlist("#EXTM3U\n#EXT-X-MEDIA:TYPE=AUDIO"));
    assert!(!is_master_playlist("#EXTM3U\n#EXTINF:4,\na.ts"));
}

#[test]
fn upper_and_lower_cased_names() {
    assert_eq!(hdcp_rank_of_upper(&chars("NONE")), 0);
    assert_eq!(hdcp_rank_of_upper(&chars("TYPE-0")), 1);
    assert_eq!(hdcp_rank_of_upper(&chars("TYPE-1")), 2);
    assert_eq!(hdcp_rank_of_upper(&chars("type-1")), 0);
    assert!(names_video_codec(&chars("avc1.64001f")));
    assert!(names_video_codec(&chars("hev1.1.6.l93.b0")));
    assert!(!names_video_codec(&chars("AVC1")));
    assert!(names_audio_codec(&chars("mp4a.40.2")));
    assert!(names_audio_codec(&chars("ec-3")));
    assert!(!names_audio_codec(&chars("avc1")));
    assert_eq!(rendition_type_from_upper(&chars("AUDIO")), Some(RenditionType::Audio));
    assert_eq!(rendition_type_from_upper(&chars("CLOSED-CAPTIONS")), Some(RenditionType::ClosedCaptions));
    assert_eq!(rendition_type_from_upper(&chars("audio")), None);
    assert_eq!(EncryptionMethod::from_upper(&chars("AES-128")), EncryptionMethod::Aes128);
    assert_eq!(EncryptionMethod::from_upper(&chars("SAMPLE-AES-CTR")), EncryptionMethod::SampleAesCtr);
    assert_eq!(EncryptionMethod::from_upper(&chars("aes-128")), EncryptionMethod::NoEncryption);
    // the full readers upper-case first
    assert_eq!(EncryptionMethod::parse("aes-128"), EncryptionMethod::Aes128);
    assert_eq!(hdcp_value(&chars("type-0")), 1);
}

#[test]
fn resolution_round_trip() {
    for (w, h) in [(0u32, 0u32), (1920, 1080), (u32::MAX, 7)] {
        let r = Resolution::parse(&format!("{}x{}", w, h)).unwrap();
        assert_eq!((r.width, r.height), (w, h));
    }
    assert!(Resolution::parse("1920X1080").is_none());
    assert!(Resolution::parse("1920x").is_none());
    assert!(Resolution::parse("1x2x3").is_none());
    assert!(Resolution::parse("-1x5").is_none());
}
