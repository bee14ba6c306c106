use starfin::attributes::parse_attributes;
use starfin::hls::config::HlsConfig;
use starfin::hls::error::{ErrorCategory, ErrorCode, HlsError};
use starfin::hls::loader::{
    accept_key, is_quota_exceeded, key_uri, max_retries_for, range_header, FragmentLoader,
    RetryState, RetryStep,
};
use starfin::hls::playlist::{parse_key_info, EncryptionMethod};

#[test]
fn range_headers() {
    assert_eq!(range_header(0, 1), "bytes=0-0");
    assert_eq!(range_header(200, 1000), "bytes=200-1199");
    assert_eq!(range_header(u64::MAX - 9, 10), format!("bytes={}-{}", u64::MAX - 9, u64::MAX));
}

#[test]
fn key_uri_required() {
    let k = parse_key_info(&parse_attributes("METHOD=AES-128,URI=\"https://k/1\"")).unwrap();
    assert_eq!(key_uri(&k).unwrap(), "https://k/1");
    let n = parse_key_info(&parse_attributes("METHOD=AES-128")).unwrap();
    let e = key_uri(&n).unwrap_err();
    assert_eq!(e.category, ErrorCategory::Network);
    assert_eq!(e.code, ErrorCode::KeyLoadError);
    assert_eq!(e.message, "Key URI is missing");
}

#[test]
fn keys_must_have_sixteen_bytes() {
    let k = parse_key_info(&parse_attributes("METHOD=AES-128,URI=\"k\",IV=0x00000000000000000000000000000001"))
        .unwrap();
    let ok = accept_key(&k, vec![7; 16]).unwrap();
    assert_eq!(ok.key_data, vec![7; 16]);
    assert_eq!(ok.method, EncryptionMethod::Aes128);
    assert_eq!(ok.iv.as_ref().map(|v| v[15]), Some(1));
    let e = accept_key(&k, vec![1, 2, 3]).unwrap_err();
    assert_eq!(e.code, ErrorCode::KeyLoadError);
    assert_eq!(e.message, "Invalid key size: expected 16 bytes, got 3");
}

#[test]
fn retries_with_backoff() {
    let mut r = RetryState::new(2, 1000, 3000);
    assert_eq!(r.on_failure(), RetryStep::Retry { delay: 1000 });
    r.back_off(2000);
    assert_eq!(r.delay(), 2000);
    assert_eq!(r.on_failure(), RetryStep::Retry { delay: 2000 });
    r.back_off(4000);
    assert_eq!(r.delay(), 3000);
    assert_eq!(r.retry_count(), 2);
    assert_eq!(r.on_failure(), RetryStep::GiveUp);
    assert_eq!(r.retry_count(), 2);
    let mut none = RetryState::new(0, 10, 10);
    assert_eq!(none.on_failure(), RetryStep::GiveUp);
}

#[test]
fn retry_limits_by_kind() {
    let c = HlsConfig::new();
    assert_eq!(max_retries_for(&c, true), c.level_load_max_retry);
    assert_eq!(max_retries_for(&c, false), 6);
}

#[test]
fn quota_errors() {
    assert!(is_quota_exceeded(&HlsError::media(ErrorCode::BufferAppendError, "QuotaExceededError")));
    assert!(is_quota_exceeded(&HlsError::media(ErrorCode::BufferAppendError, "over quota")));
    assert!(!is_quota_exceeded(&HlsError::media(ErrorCode::BufferAppendError, "Quota")));
}

#[test]
fn init_segment_cache() {
    let mut l = FragmentLoader::new(&HlsConfig::new());
    assert!(l.cached_init(1).is_none());
    l.store_init(1, vec![1, 2, 3]);
    l.store_init(2, vec![4]);
    assert_eq!(l.cached_init(1), Some(vec![1, 2, 3]));
    l.store_init(1, vec![9]);
    assert_eq!(l.cached_init(1), Some(vec![9]));
    l.clear_init_cache(Some(1));
    assert!(l.cached_init(1).is_none());
    assert_eq!(l.cached_init(2), Some(vec![4]));
    l.clear_init_cache(None);
    assert!(l.cached_init(2).is_none());
}

#[test]
fn key_cache_reads_back_what_was_stored() {
    let mut l = FragmentLoader::new(&HlsConfig::new());
    let k = parse_key_info(&parse_attributes("METHOD=AES-128,URI=\"k\"")).unwrap();
    let a = accept_key(&k, vec![1; 16]).unwrap();
    let b = accept_key(&k, vec![2; 16]).unwrap();
    l.store_key("https://k/a", a);
    l.store_key("https://k/b", b);
    assert_eq!(l.cached_key("https://k/a").map(|x| x.key_data), Some(vec![1; 16]));
    let c = accept_key(&k, vec![3; 16]).unwrap();
    l.store_key("https://k/a", c);
    assert_eq!(l.cached_key("https://k/a").map(|x| x.key_data), Some(vec![3; 16]));
    assert_eq!(l.cached_key("https://k/b").map(|x| x.key_data), Some(vec![2; 16]));
    assert!(l.cached_key("https://k/c").is_none());
    l.clear_key_cache();
    assert!(l.cached_key("https://k/b").is_none());
}

#[test]
fn cancelled_loads_are_invalid() {
    let mut l = FragmentLoader::new(&HlsConfig::new());
    l.set_base_url("http://h/");
    let id = l.begin_load();
    assert_eq!(id, 1);
    assert!(l.is_load_valid(id));
    l.cancel_load();
    assert!(!l.is_load_valid(id));
    let next = l.begin_load();
    assert_eq!(next, 3);
    assert!(l.is_load_valid(next));
}

#[test]
fn key_load_steps() {
    let mut loader = FragmentLoader::new(&HlsConfig::new());
    let k = parse_key_info(&parse_attributes("METHOD=AES-128,URI=\"https://k/1\",IV=0x00000000000000000000000000000002")).unwrap();
    // nothing cached: the URI to fetch
    let (uri, cached) = loader.key_lookup(&k).unwrap();
    assert_eq!(uri, "https://k/1");
    assert!(cached.is_none());
    // a fetch error is passed on and nothing is cached
    let err = HlsError::network(ErrorCode::FragLoadError, "down");
    let e = loader.finish_key_load(&uri, &k, Err(err)).unwrap_err();
    assert_eq!(e.code, ErrorCode::FragLoadError);
    assert!(loader.cached_key(&uri).is_none());
    // a key of the wrong size is refused and not cached
    let e = loader.finish_key_load(&uri, &k, Ok(vec![1; 8])).unwrap_err();
    assert_eq!(e.code, ErrorCode::KeyLoadError);
    assert_eq!(e.message, "Invalid key size: expected 16 bytes, got 8");
    assert!(loader.cached_key(&uri).is_none());
    // sixteen bytes: the key, with the tag's IV and method, cached
    let got = loader.finish_key_load(&uri, &k, Ok(vec![7; 16])).unwrap();
    assert_eq!(got.key_data, vec![7; 16]);
    assert_eq!(got.method, EncryptionMethod::Aes128);
    assert_eq!(got.iv.as_ref().unwrap()[15], 2);
    let (_, again) = loader.key_lookup(&k).unwrap();
    assert_eq!(again.unwrap().key_data, vec![7; 16]);
    // a tag without a URI
    let n = parse_key_info(&parse_attributes("METHOD=AES-128")).unwrap();
    assert_eq!(loader.key_lookup(&n).unwrap_err().code, ErrorCode::KeyLoadError);
}
