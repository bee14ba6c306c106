use starfin::attributes::parse_attributes;
use starfin::hls::error::{ErrorCategory, ErrorCode, ErrorSeverity, HlsError, RecoveryAction};
use starfin::hls::metadata::{
    emsg_would_break, read_null_terminated_string, MetadataParser, MetadataType, SampleAesDecryptor,
};
use starfin::hls::playlist::parse_date_range;

fn id3_tag(frame_id: &[u8; 4], payload: &[u8]) -> Vec<u8> {
    let frame_size = payload.len() as u32;
    let body_len = 10 + payload.len();
    let mut v = vec![b'I', b'D', b'3', 4, 0, 0];
    // synchsafe size of the body
    v.push(((body_len >> 21) & 0x7f) as u8);
    v.push(((body_len >> 14) & 0x7f) as u8);
    v.push(((body_len >> 7) & 0x7f) as u8);
    v.push((body_len & 0x7f) as u8);
    v.extend_from_slice(frame_id);
    v.extend_from_slice(&frame_size.to_be_bytes());
    v.extend_from_slice(&[0, 0]);
    v.extend_from_slice(payload);
    v
}

fn emsg_v0(scheme: &str, value: &str, message: &[u8]) -> Vec<u8> {
    let mut body = vec![0u8, 0, 0, 0];
    body.extend_from_slice(scheme.as_bytes());
    body.push(0);
    body.extend_from_slice(value.as_bytes());
    body.push(0);
    body.extend_from_slice(&90000u32.to_be_bytes());
    body.extend_from_slice(&10u32.to_be_bytes());
    body.extend_from_slice(&2000u32.to_be_bytes());
    body.extend_from_slice(&7u32.to_be_bytes());
    body.extend_from_slice(message);
    let size = (8 + body.len()) as u32;
    let mut v = size.to_be_bytes().to_vec();
    v.extend_from_slice(b"emsg");
    v.extend_from_slice(&body);
    v
}

#[test]
fn error_constructors_and_flags() {
    let e = HlsError::network(ErrorCode::FragLoadError, "timeout");
    assert_eq!(e.category, ErrorCategory::Network);
    assert_eq!(e.severity, ErrorSeverity::Error);
    assert!(!e.fatal);
    assert!(e.is_recoverable());
    assert!(e.should_retry(3));
    assert_eq!(e.recommended_recovery(), RecoveryAction::Retry);
    let f = e.clone().with_fatal(true);
    assert_eq!(f.severity, ErrorSeverity::Fatal);
    assert!(!f.is_recoverable());
    assert!(!f.should_retry(3));
    let r = e.clone().with_retry_count(3);
    assert!(!r.should_retry(3));
    assert!(r.should_retry(4));
    let m = HlsError::manifest(ErrorCode::ManifestParsingError, "bad");
    assert!(!m.is_recoverable());
    let c = HlsError::capability(ErrorCode::MseNotSupported, "no mse");
    assert_eq!(c.category, ErrorCategory::Capability);
    let i = HlsError::internal("oops");
    assert_eq!(i.code, ErrorCode::InternalError);
    let md = HlsError::media(ErrorCode::MediaDecodeError, "decode");
    assert!(md.is_recoverable());
}

#[test]
fn error_recovery_actions() {
    let r = |code: ErrorCode, fatal: bool| HlsError::media(code, "x").with_fatal(fatal).recommended_recovery();
    assert_eq!(r(ErrorCode::LevelLoadTimeout, false), RecoveryAction::SwitchLevel(-1));
    assert_eq!(r(ErrorCode::ManifestLoadError, false), RecoveryAction::ReloadManifest);
    assert_eq!(r(ErrorCode::ManifestLoadError, true), RecoveryAction::NoRecovery);
    assert_eq!(r(ErrorCode::BufferStalledError, true), RecoveryAction::SeekToRecover);
    assert_eq!(r(ErrorCode::MediaAppendError, false), RecoveryAction::RecreateMediaSource);
    assert_eq!(r(ErrorCode::BufferFullError, true), RecoveryAction::SwitchLevel(-1));
    assert_eq!(r(ErrorCode::KeyLoadError, false), RecoveryAction::Retry);
    assert_eq!(r(ErrorCode::FragLoadError, true), RecoveryAction::NoRecovery);
}

#[test]
fn error_text() {
    let e = HlsError::network(ErrorCode::KeyLoadError, "Key URI is missing");
    assert_eq!(e.to_display_string(), "[HLS KeyLoadError] Key URI is missing");
    let d = e.with_details("uri=k");
    assert_eq!(d.to_display_string(), "[HLS KeyLoadError] Key URI is missing (uri=k)");
    assert_eq!(ErrorCode::FragLoadError.number(), 120);
    assert_eq!(ErrorCode::DrmNotSupported.number(), 502);
    assert_eq!(ErrorCode::BufferStalledError.name(), "BufferStalledError");
}

#[test]
fn null_terminated_strings() {
    let data = b"abc\0de\0f";
    let mut off = 0usize;
    assert_eq!(read_null_terminated_string(data, &mut off).as_deref(), Some("abc"));
    assert_eq!(off, 4);
    assert_eq!(read_null_terminated_string(data, &mut off).as_deref(), Some("de"));
    assert_eq!(off, 7);
    assert_eq!(read_null_terminated_string(data, &mut off), None);
    assert_eq!(off, 7);
    let bad = [0xffu8, 0];
    let mut o = 0usize;
    assert_eq!(read_null_terminated_string(&bad, &mut o), None);
    assert_eq!(o, 0);
}

#[test]
fn id3_tags() {
    let p = MetadataParser::new();
    let tag = id3_tag(b"TXXX", b"\x03hello");
    let s = p.parse_id3(&tag).unwrap();
    assert_eq!(s.data, tag);
    assert_eq!(s.frames.len(), 1);
    assert_eq!(s.frames[0].id, "TXXX");
    assert_eq!(s.frames[0].data, b"\x03hello".to_vec());
    assert!(p.parse_id3(b"ID").is_none());
    assert!(p.parse_id3(b"XYZ\x04\x00\x00\x00\x00\x00\x00").is_none());
    // the body runs past the data
    assert!(p.parse_id3(&tag[..tag.len() - 1]).is_none());
}

#[test]
fn emsg_boxes() {
    let p = MetadataParser::new();
    let mut data = vec![0, 0, 0, 8, b'f', b't', b'y', b'p'];
    data.extend(emsg_v0("urn:scte:scte35:2013:bin", "1", b"payload"));
    assert!(!emsg_would_break(&data));
    let e = p.parse_emsg(&data).unwrap();
    assert_eq!(e.scheme_id_uri, "urn:scte:scte35:2013:bin");
    assert_eq!(e.value, "1");
    assert_eq!(e.timescale, 90000);
    assert_eq!(e.presentation_time_delta, 10);
    assert_eq!(e.event_duration, 2000);
    assert_eq!(e.id, 7);
    assert_eq!(e.message_data, b"payload".to_vec());
    assert!(p.parse_emsg(b"\x00\x00\x00\x08moov").is_none());
}

#[test]
fn emsg_version_one() {
    let mut body = vec![1u8, 0, 0, 0];
    body.extend_from_slice(&1000u32.to_be_bytes());
    body.extend_from_slice(&[0u8; 8]);
    body.extend_from_slice(&500u32.to_be_bytes());
    body.extend_from_slice(&3u32.to_be_bytes());
    body.extend_from_slice(b"s\0v\0msg");
    let mut data = ((8 + body.len()) as u32).to_be_bytes().to_vec();
    data.extend_from_slice(b"emsg");
    data.extend_from_slice(&body);
    let e = MetadataParser::new().parse_emsg(&data).unwrap();
    assert_eq!(e.timescale, 1000);
    assert_eq!(e.presentation_time_delta, 0);
    assert_eq!(e.event_duration, 500);
    assert_eq!(e.id, 3);
    assert_eq!(e.scheme_id_uri, "s");
    assert_eq!(e.value, "v");
    assert_eq!(e.message_data, b"msg".to_vec());
}

#[test]
fn emsg_that_would_break() {
    // an emsg box whose size is smaller than its header
    assert!(emsg_would_break(b"\x00\x00\x00\x04emsg"));
    // version 0 with fewer than four bytes of contents
    assert!(emsg_would_break(b"\x00\x00\x00\x0aemsg\x00\x00"));
    assert!(!emsg_would_break(b"short"));
}

#[test]
fn segment_metadata_finds_id3_or_emsg() {
    let p = MetadataParser::default();
    let tag = id3_tag(b"PRIV", b"xy");
    let found = p.parse_segment_metadata(&tag);
    assert_eq!(found.len(), 1);
    assert!(matches!(found[0], MetadataType::Id3(_)));
    let boxed = emsg_v0("a", "b", b"");
    let found = p.parse_segment_metadata(&boxed);
    assert_eq!(found.len(), 1);
    assert!(matches!(found[0], MetadataType::Emsg(_)));
    // behind an ID3 tag the box search reads the tag as a box and stops
    let mut both = tag.clone();
    both.extend(boxed);
    assert_eq!(p.parse_segment_metadata(&both).len(), 1);
    assert!(p.parse_segment_metadata(b"").is_empty());
}

#[test]
fn date_ranges_become_events() {
    let mut p = MetadataParser::new();
    let d = parse_date_range(&parse_attributes(
        "ID=\"ad\",START-DATE=\"2024\",SCTE35-OUT=0xFC30,X-A=\"1\",X-B=\"2\",DURATION=15",
    ))
    .unwrap();
    p.set_date_ranges(vec![d]);
    assert!(p.scte35_readable_all());
    let events = p.active_date_ranges();
    assert_eq!(events.len(), 1);
    assert_eq!(events[0].id, "ad");
    assert_eq!(events[0].scte35_out, Some(vec![0xfc, 0x30]));
    assert!(events[0].scte35_cmd.is_none());
    assert_eq!(events[0].duration.as_deref(), Some("15"));
    let mut attrs = events[0].client_attributes.clone();
    attrs.sort();
    assert_eq!(attrs, vec![("X-A".to_string(), "1".to_string()), ("X-B".to_string(), "2".to_string())]);
    p.reset();
    assert!(p.active_date_ranges().is_empty());
}

#[test]
fn sample_aes_passes_data_through() {
    let d = SampleAesDecryptor::new(vec![0; 16], vec![1; 16]);
    assert_eq!(d.decrypt_ts(b"abc").unwrap(), b"abc".to_vec());
    assert_eq!(d.decrypt_block(b"").unwrap(), Vec::<u8>::new());
}
