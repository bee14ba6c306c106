//! The fragment loader's decisions: retries with backoff, byte range requests,
//! encryption keys, the init segment and key caches, and cancellation.
//!
//! The embedding player performs the fetches and the waits; this module decides
//! what to fetch, how often to retry and what to keep.
use crate::hls::config::HlsConfig;
use crate::hls::error::{ErrorCategory, ErrorCode, HlsError};
use crate::hls::playlist::{EncryptionMethod, KeyInfo};
use crate::text::{decimal, decimal_chars, push_chars, push_str, string_of};
use std::collections::HashMap;
use vstd::prelude::*;

verus! {

broadcast use vstd::std_specs::hash::group_hash_axioms;

/// A loaded encryption key.
#[derive(Clone, Debug)]
pub struct LoadedKey {
    pub key_data: Vec<u8>,
    pub iv: Option<Vec<u8>>,
    pub method: EncryptionMethod,
}

/// A loaded key as plain values.
pub struct LoadedKeyV {
    pub key_data: Seq<u8>,
    pub iv: Option<Seq<u8>>,
    pub method: EncryptionMethod,
}

impl View for LoadedKey {
    type V = LoadedKeyV;

    open spec fn view(&self) -> LoadedKeyV {
        LoadedKeyV { key_data: self.key_data@, iv: self.iv.deep_view(), method: self.method }
    }
}

/// A copy of a byte vector.
fn copy_bytes(v: &Vec<u8>) -> (r: Vec<u8>)
    ensures
        r@ == v@,
{
    let mut out: Vec<u8> = Vec::new();
    let mut i: usize = 0;
    while i < v.len()
        invariant
            i <= v@.len(),
            out@ == v@.take(i as int),
        decreases v.len() - i,
    {
        out.push(v[i]);
        i += 1;
        assert(out@ =~= v@.take(i as int));
    }
    assert(v@.take(i as int) =~= v@);
    out
}

impl LoadedKey {
    /// A copy of this key.
    pub fn copied(&self) -> (r: Self)
        ensures
            r@ == self@,
    {
        let iv = match &self.iv {
            Some(v) => Some(copy_bytes(v)),
            None => None,
        };
        assert(iv.deep_view() == self.iv.deep_view()) by {
            match &self.iv {
                Some(v) => assert(iv.unwrap().deep_view() =~= v.deep_view()),
                None => {},
            }
        }
        LoadedKey { key_data: copy_bytes(&self.key_data), iv, method: self.method }
    }
}

/// The `Range` header value that asks for `length` bytes from `offset`.
pub open spec fn range_header_text(offset: u64, length: u64) -> Seq<char> {
    "bytes="@ + decimal(offset as nat) + "-"@ + decimal((offset + length - 1) as nat)
}

/// The `Range` header value that asks for `length` bytes from `offset`:
/// `bytes=FIRST-LAST`, both inclusive.
pub fn range_header(offset: u64, length: u64) -> (r: String)
    requires
        length >= 1,
        offset + length - 1 <= u64::MAX,
    ensures
        r@ == range_header_text(offset, length),
{
    let mut out: Vec<char> = Vec::new();
    push_str(&mut out, "bytes=");
    let first = decimal_chars(offset);
    push_chars(&mut out, first.as_slice());
    push_str(&mut out, "-");
    let last = decimal_chars(offset + (length - 1));
    push_chars(&mut out, last.as_slice());
    assert(out@ =~= range_header_text(offset, length));
    string_of(out.as_slice())
}

/// The message of the error for a key of the wrong size.
pub open spec fn key_size_message(n: nat) -> Seq<char> {
    "Invalid key size: expected 16 bytes, got "@ + decimal(n)
}

/// The URI to load a key from; fails with a key load error when the key has none.
pub fn key_uri(key_info: &KeyInfo) -> (r: Result<String, HlsError>)
    ensures
        match key_info.uri {
            Some(u) => r matches Ok(s) && s@ == u@,
            None => r matches Err(e) && e.plain(
                ErrorCategory::Network,
                ErrorCode::KeyLoadError,
                "Key URI is missing"@,
            ),
        },
{
    match &key_info.uri {
        Some(u) => Ok(u.clone()),
        None => Err(HlsError::network(ErrorCode::KeyLoadError, "Key URI is missing")),
    }
}

/// The key made of the loaded bytes, with the IV and method of the key tag;
/// fails with a key load error unless there are exactly 16 bytes.
pub fn accept_key(key_info: &KeyInfo, data: Vec<u8>) -> (r: Result<LoadedKey, HlsError>)
    ensures
        data@.len() == 16 ==> (r matches Ok(k) && k@ == (LoadedKeyV {
            key_data: data@,
            iv: key_info.iv.deep_view(),
            method: key_info.method,
        })),
        data@.len() != 16 ==> (r matches Err(e) && e.plain(
            ErrorCategory::Network,
            ErrorCode::KeyLoadError,
            key_size_message(data@.len()),
        )),
{
    if data.len() != 16 {
        let mut msg: Vec<char> = Vec::new();
        push_str(&mut msg, "Invalid key size: expected 16 bytes, got ");
        let digits = decimal_chars(data.len() as u64);
        push_chars(&mut msg, digits.as_slice());
        assert(msg@ =~= key_size_message(data@.len()));
        let text = string_of(msg.as_slice());
        return Err(HlsError::network(ErrorCode::KeyLoadError, text.as_str()));
    }
    let iv = match &key_info.iv {
        Some(v) => Some(copy_bytes(v)),
        None => None,
    };
    assert(iv.deep_view() == key_info.iv.deep_view()) by {
        match &key_info.iv {
            Some(v) => assert(iv.unwrap().deep_view() =~= v.deep_view()),
            None => {},
        }
    }
    Ok(LoadedKey { key_data: data, iv, method: key_info.method })
}

/// What to do after a failed fetch.
#[derive(Clone, Copy, Debug, PartialEq, Eq, Structural)]
pub enum RetryStep {
    /// Wait this many milliseconds, then fetch again
    Retry { delay: u32 },
    /// Stop and report the last error
    GiveUp,
}

/// The retry state of one fetch: up to `max_retries` retries after the first
/// attempt, waiting `delay` before each, the delay growing up to `max_delay`.
#[derive(Clone, Copy, Debug, PartialEq, Eq, Structural)]
pub struct RetryState {
    attempt: u32,
    max_retries: u32,
    retry_count: u32,
    delay: u32,
    max_delay: u32,
}

/// The retry state as plain values.
pub struct RetryStateV {
    /// The attempt under way, from 0
    pub attempt: u32,
    pub max_retries: u32,
    /// The retries made so far
    pub retry_count: u32,
    /// The wait before the next retry, in milliseconds
    pub delay: u32,
    pub max_delay: u32,
}

impl View for RetryState {
    type V = RetryStateV;

    closed spec fn view(&self) -> RetryStateV {
        RetryStateV {
            attempt: self.attempt,
            max_retries: self.max_retries,
            retry_count: self.retry_count,
            delay: self.delay,
            max_delay: self.max_delay,
        }
    }
}

impl RetryState {
    /// No more retries than attempts, and no more attempts than the first
    /// plus the retries allowed.
    #[verifier::type_invariant]
    closed spec fn counts_ordered(&self) -> bool {
        self.retry_count <= self.attempt <= self.max_retries
    }

    /// The state before the first attempt.
    pub fn new(max_retries: u32, first_delay: u32, max_delay: u32) -> (r: Self)
        ensures
            r@ == (RetryStateV {
                attempt: 0,
                max_retries,
                retry_count: 0,
                delay: first_delay,
                max_delay,
            }),
    {
        RetryState { attempt: 0, max_retries, retry_count: 0, delay: first_delay, max_delay }
    }

    /// The retries made so far.
    pub fn retry_count(&self) -> (r: u32)
        ensures
            r == self@.retry_count,
    {
        self.retry_count
    }

    /// The wait before the next retry, in milliseconds.
    pub fn delay(&self) -> (r: u32)
        ensures
            r == self@.delay,
    {
        self.delay
    }

    /// After a failed attempt: retry, after the current delay, while retries
    /// are left; else give up. Retries never exceed the allowed number.
    pub fn on_failure(&mut self) -> (r: RetryStep)
        ensures
            old(self)@.attempt < old(self)@.max_retries ==> r == (RetryStep::Retry {
                delay: old(self)@.delay,
            }) && final(self)@ == (RetryStateV {
                attempt: (old(self)@.attempt + 1) as u32,
                retry_count: (old(self)@.retry_count + 1) as u32,
                ..old(self)@
            }),
            old(self)@.attempt >= old(self)@.max_retries ==> r == RetryStep::GiveUp
                && final(self)@ == old(self)@,
            final(self)@.retry_count <= final(self)@.attempt <= final(self)@.max_retries,
    {
        proof {
            use_type_invariant(&*self);
        }
        if self.attempt < self.max_retries {
            let d = self.delay;
            *self = RetryState {
                attempt: self.attempt + 1,
                retry_count: self.retry_count + 1,
                ..*self
            };
            RetryStep::Retry { delay: d }
        } else {
            RetryStep::GiveUp
        }
    }

    /// Sets the next delay to `scaled` (the current delay times the backoff
    /// factor), at most the maximum delay.
    pub fn back_off(&mut self, scaled: u32)
        ensures
            final(self)@ == (RetryStateV {
                delay: if scaled <= old(self)@.max_delay {
                    scaled
                } else {
                    old(self)@.max_delay
                },
                ..old(self)@
            }),
    {
        proof {
            use_type_invariant(&*self);
        }
        let delay = if scaled <= self.max_delay {
            scaled
        } else {
            self.max_delay
        };
        *self = RetryState { delay, ..*self };
    }
}

/// The number of retries for a fetch: the level load retries for an init
/// segment, the fragment load retries otherwise.
pub fn max_retries_for(config: &HlsConfig, is_init: bool) -> (r: u32)
    ensures
        r == if is_init {
            config.level_load_max_retry
        } else {
            config.frag_load_max_retry
        },
{
    if is_init {
        config.level_load_max_retry
    } else {
        config.frag_load_max_retry
    }
}

/// Whether an error is a buffer quota error.
pub fn is_quota_exceeded(error: &HlsError) -> (r: bool)
    ensures
        r == (crate::text::contains_seq(error.message@, "QuotaExceeded"@)
            || crate::text::contains_seq(error.message@, "quota"@)),
{
    let m = crate::text::chars_of(error.message.as_str());
    crate::text::contains_str(m.as_slice(), "QuotaExceeded") || crate::text::contains_str(
        m.as_slice(),
        "quota",
    )
}

/// The fragment loader's state: cached init segments and keys, and the
/// current load id.
pub struct FragmentLoader {
    init_cache: HashMap<usize, Vec<u8>>,
    key_cache: Vec<(String, LoadedKey)>,
    current_load_id: u64,
    base_url: String,
}

/// Whether no URI occurs twice among the cached keys.
pub open spec fn unique_uris(keys: Seq<(Seq<char>, LoadedKeyV)>) -> bool {
    forall|i: int, j: int| 0 <= i < j < keys.len() ==> keys[i].0 != keys[j].0
}

/// The key cached for `uri`.
pub open spec fn key_for(keys: Seq<(Seq<char>, LoadedKeyV)>, uri: Seq<char>) -> Option<LoadedKeyV> {
    if exists|i: int| 0 <= i < keys.len() && keys[i].0 == uri {
        Some(keys[choose|i: int| 0 <= i < keys.len() && keys[i].0 == uri].1)
    } else {
        None
    }
}

/// The cached keys as plain values.
pub open spec fn key_views(v: Seq<(String, LoadedKey)>) -> Seq<(Seq<char>, LoadedKeyV)> {
    v.map_values(|p: (String, LoadedKey)| (p.0@, p.1@))
}

/// The position of the key cached under `uri`.
fn find_uri(keys: &Vec<(String, LoadedKey)>, uri: &String) -> (r: Option<usize>)
    ensures
        match r {
            Some(i) => i < keys@.len() && key_views(keys@)[i as int].0 == uri@,
            None => forall|j: int| 0 <= j < keys@.len() ==> key_views(keys@)[j].0 != uri@,
        },
{
    let mut i: usize = 0;
    while i < keys.len()
        invariant
            i <= keys@.len(),
            forall|j: int| 0 <= j < i ==> key_views(keys@)[j].0 != uri@,
        decreases keys.len() - i,
    {
        if keys[i].0 == *uri {
            return Some(i);
        }
        i += 1;
    }
    None
}

/// With distinct URIs, the key cached for a URI is the one stored under it.
pub proof fn lemma_key_for_at(keys: Seq<(Seq<char>, LoadedKeyV)>, uri: Seq<char>, i: int)
    requires
        unique_uris(keys),
        0 <= i < keys.len(),
        keys[i].0 == uri,
    ensures
        key_for(keys, uri) == Some(keys[i].1),
{
    let c = choose|c: int| 0 <= c < keys.len() && keys[c].0 == uri;
    if c < i {
        assert(keys[c].0 != keys[i].0);
    } else if c > i {
        assert(keys[i].0 != keys[c].0);
    }
}

/// Two caches with distinct URIs, whose entries under URIs other than one
/// stored at the same places agree, give the same key for such a URI: the
/// second holds the first's entries, possibly with one entry changed or one
/// added, neither under `u`.
proof fn lemma_key_for_same(
    old_keys: Seq<(Seq<char>, LoadedKeyV)>,
    new_keys: Seq<(Seq<char>, LoadedKeyV)>,
    u: Seq<char>,
)
    requires
        unique_uris(old_keys),
        unique_uris(new_keys),
        old_keys.len() <= new_keys.len(),
        forall|j: int| 0 <= j < old_keys.len() && (old_keys[j].0 == u || new_keys[j].0 == u)
            ==> #[trigger] new_keys[j] == old_keys[j],
        forall|j: int| old_keys.len() <= j < new_keys.len() ==> #[trigger] new_keys[j].0 != u,
    ensures
        key_for(new_keys, u) == key_for(old_keys, u),
{
    if exists|j: int| 0 <= j < old_keys.len() && old_keys[j].0 == u {
        let j = choose|j: int| 0 <= j < old_keys.len() && old_keys[j].0 == u;
        assert(new_keys[j] == old_keys[j]);
        lemma_key_for_at(old_keys, u, j);
        lemma_key_for_at(new_keys, u, j);
    } else if exists|j: int| 0 <= j < new_keys.len() && new_keys[j].0 == u {
        let j = choose|j: int| 0 <= j < new_keys.len() && new_keys[j].0 == u;
        if j < old_keys.len() {
            assert(new_keys[j] == old_keys[j]);
        }
    }
}

/// An init segment stored for a level is what a later read for that level
/// gives, and the other levels keep what they had; clearing a level drops
/// only that level.
pub proof fn law_init_cache_read_after_write(
    inits: Map<usize, Seq<u8>>,
    level: usize,
    data: Seq<u8>,
    other: usize,
)
    requires
        other != level,
    ensures
        inits.insert(level, data).contains_key(level),
        inits.insert(level, data)[level] == data,
        inits.insert(level, data).contains_key(other) == inits.contains_key(other),
        inits.contains_key(other) ==> inits.insert(level, data)[other] == inits[other],
        !inits.remove(level).contains_key(level),
        inits.remove(level).contains_key(other) == inits.contains_key(other),
        inits.contains_key(other) ==> inits.remove(level)[other] == inits[other],
{
}

/// Moving the load id on always gives a new id: a cancelled or superseded
/// load is no longer valid.
pub proof fn law_new_load_id_differs(id: u64)
    ensures
        id.wrapping_add(1) != id,
{
}

impl FragmentLoader {
    /// The cached init segments, by level.
    pub closed spec fn inits(&self) -> Map<usize, Seq<u8>> {
        self.init_cache@.map_values(|v: Vec<u8>| v@)
    }

    /// The cached keys, by URI.
    pub closed spec fn keys(&self) -> Seq<(Seq<char>, LoadedKeyV)> {
        key_views(self.key_cache@)
    }

    /// The current load id.
    pub closed spec fn load_id(&self) -> u64 {
        self.current_load_id
    }

    /// The base URL.
    pub closed spec fn base(&self) -> Seq<char> {
        self.base_url@
    }

    /// The cached keys have distinct URIs.
    #[verifier::type_invariant]
    closed spec fn well_formed(&self) -> bool {
        unique_uris(self.keys())
    }

    /// A loader with empty caches; the configuration's retry limits are read
    /// through [`max_retries_for`].
    pub fn new(config: &HlsConfig) -> (r: Self)
        ensures
            r.inits() == Map::<usize, Seq<u8>>::empty(),
            r.keys() == Seq::<(Seq<char>, LoadedKeyV)>::empty(),
            r.load_id() == 0,
            r.base() == Seq::<char>::empty(),
    {
        let r = FragmentLoader {
            init_cache: HashMap::new(),
            key_cache: Vec::new(),
            current_load_id: 0,
            base_url: String::new(),
        };
        assert(r.inits() =~= Map::<usize, Seq<u8>>::empty());
        assert(r.keys() =~= Seq::<(Seq<char>, LoadedKeyV)>::empty());
        r
    }

    /// Sets the base URL for resolving relative URLs.
    pub fn set_base_url(&mut self, url: &str)
        ensures
            final(self).base() == url@,
            final(self).inits() == old(self).inits(),
            final(self).keys() == old(self).keys(),
            final(self).load_id() == old(self).load_id(),
    {
        proof {
            use_type_invariant(&*self);
        }
        self.base_url = url.to_owned();
    }

    /// The cached init segment of a level.
    pub fn cached_init(&self, level: usize) -> (r: Option<Vec<u8>>)
        ensures
            match r {
                Some(d) => self.inits().contains_key(level) && d@ == self.inits()[level],
                None => !self.inits().contains_key(level),
            },
    {
        match self.init_cache.get(&level) {
            Some(d) => Some(copy_bytes(d)),
            None => None,
        }
    }

    /// Caches the init segment of a level.
    pub fn store_init(&mut self, level: usize, data: Vec<u8>)
        ensures
            final(self).inits() == old(self).inits().insert(level, data@),
            final(self).keys() == old(self).keys(),
            final(self).load_id() == old(self).load_id(),
            final(self).base() == old(self).base(),
    {
        proof {
            use_type_invariant(&*self);
        }
        let ghost d = data@;
        let mut cache: HashMap<usize, Vec<u8>> = HashMap::new();
        std::mem::swap(&mut cache, &mut self.init_cache);
        cache.insert(level, data);
        self.init_cache = cache;
        assert(self.inits() =~= old(self).inits().insert(level, d));
    }

    /// Forgets the cached init segment of a level, or of all levels.
    pub fn clear_init_cache(&mut self, level: Option<usize>)
        ensures
            final(self).inits() == match level {
                Some(l) => old(self).inits().remove(l),
                None => Map::<usize, Seq<u8>>::empty(),
            },
            final(self).keys() == old(self).keys(),
            final(self).load_id() == old(self).load_id(),
            final(self).base() == old(self).base(),
    {
        proof {
            use_type_invariant(&*self);
        }
        let mut cache: HashMap<usize, Vec<u8>> = HashMap::new();
        std::mem::swap(&mut cache, &mut self.init_cache);
        match level {
            Some(l) => {
                cache.remove(&l);
                self.init_cache = cache;
                assert(self.inits() =~= old(self).inits().remove(l));
            },
            None => {
                assert(self.inits() =~= Map::<usize, Seq<u8>>::empty());
            },
        }
    }

    /// The key cached for `uri`.
    pub fn cached_key(&self, uri: &str) -> (r: Option<LoadedKey>)
        ensures
            match r {
                Some(k) => key_for(self.keys(), uri@) == Some(k@),
                None => key_for(self.keys(), uri@) is None,
            },
    {
        proof {
            use_type_invariant(self);
        }
        let u = uri.to_owned();
        let mut i: usize = 0;
        while i < self.key_cache.len()
            invariant
                i <= self.key_cache@.len(),
                u@ == uri@,
                unique_uris(self.keys()),
                forall|j: int| 0 <= j < i ==> self.keys()[j].0 != uri@,
            decreases self.key_cache.len() - i,
        {
            if self.key_cache[i].0 == u {
                proof {
                    assert(self.keys()[i as int].0 == uri@);
                    lemma_key_for_at(self.keys(), uri@, i as int);
                }
                return Some(self.key_cache[i].1.copied());
            }
            i += 1;
        }
        None
    }

    /// Caches a key under `uri`, replacing any key cached there before.
    pub fn store_key(&mut self, uri: &str, key: LoadedKey)
        ensures
            unique_uris(final(self).keys()),
            key_for(final(self).keys(), uri@) == Some(key@),
            forall|u: Seq<char>| u != uri@ ==> key_for(final(self).keys(), u) == key_for(
                old(self).keys(),
                u,
            ),
            final(self).inits() == old(self).inits(),
            final(self).load_id() == old(self).load_id(),
            final(self).base() == old(self).base(),
    {
        proof {
            use_type_invariant(&*self);
        }
        let ghost ks = self.keys();
        let ghost kv = key@;
        let u = uri.to_owned();
        let found = find_uri(&self.key_cache, &u);
        let mut cache: Vec<(String, LoadedKey)> = Vec::new();
        std::mem::swap(&mut cache, &mut self.key_cache);
        assert(key_views(cache@) == ks);
        match found {
            Some(i) => {
                let ghost before = cache@;
                let entry = (u, key);
                let ghost e = entry;
                cache.set(i, entry);
                proof {
                    assert(cache@ == before.update(i as int, e));
                    let nk = key_views(cache@);
                    assert(nk =~= ks.update(i as int, (uri@, kv)));
                    assert(unique_uris(nk)) by {
                        assert forall|a: int, b: int| 0 <= a < b < nk.len() implies nk[a].0
                            != nk[b].0 by {
                            assert(nk[a].0 == ks[a].0 && nk[b].0 == ks[b].0);
                        }
                    }
                    lemma_key_for_at(nk, uri@, i as int);
                    assert forall|w: Seq<char>| w != uri@ implies key_for(nk, w) == key_for(
                        ks,
                        w,
                    ) by {
                        lemma_key_for_same(ks, nk, w);
                    }
                }
            },
            None => {
                cache.push((u, key));
                proof {
                    let nk = key_views(cache@);
                    assert(nk =~= ks.push((uri@, kv)));
                    assert(unique_uris(nk)) by {
                        assert forall|a: int, b: int| 0 <= a < b < nk.len() implies nk[a].0
                            != nk[b].0 by {
                            if b < ks.len() {
                                assert(nk[a] == ks[a] && nk[b] == ks[b]);
                            } else {
                                assert(nk[a] == ks[a]);
                            }
                        }
                    }
                    lemma_key_for_at(nk, uri@, ks.len() as int);
                    assert forall|w: Seq<char>| w != uri@ implies key_for(nk, w) == key_for(
                        ks,
                        w,
                    ) by {
                        lemma_key_for_same(ks, nk, w);
                    }
                }
            },
        }
        self.key_cache = cache;
    }

    /// The first step of loading the key of a key tag: the key's URI and,
    /// when a key is cached under it, that key (then no fetch is made); fails
    /// with a key load error when the tag has no URI.
    pub fn key_lookup(&self, key_info: &KeyInfo) -> (r: Result<(String, Option<LoadedKey>), HlsError>)
        ensures
            match key_info.uri {
                None => r matches Err(e) && e.plain(
                    ErrorCategory::Network,
                    ErrorCode::KeyLoadError,
                    "Key URI is missing"@,
                ),
                Some(u) => r matches Ok((s, c)) && s@ == u@ && match c {
                    Some(k) => key_for(self.keys(), u@) == Some(k@),
                    None => key_for(self.keys(), u@) is None,
                },
            },
    {
        let uri = match key_uri(key_info) {
            Ok(u) => u,
            Err(e) => return Err(e),
        };
        let cached = self.cached_key(uri.as_str());
        Ok((uri, cached))
    }

    /// The last step of loading a key, given what the fetch of `uri` gave: a
    /// fetch error is passed on; exactly 16 bytes make the key (with the key
    /// tag's IV and method), which is cached under `uri` and returned; any
    /// other length fails with a key load error. Only a key that is returned
    /// is cached.
    pub fn finish_key_load(
        &mut self,
        uri: &str,
        key_info: &KeyInfo,
        fetched: Result<Vec<u8>, HlsError>,
    ) -> (r: Result<LoadedKey, HlsError>)
        ensures
            final(self).inits() == old(self).inits(),
            final(self).load_id() == old(self).load_id(),
            final(self).base() == old(self).base(),
            match fetched {
                Err(e) => r == Err::<LoadedKey, HlsError>(e) && final(self).keys() == old(
                    self,
                ).keys(),
                Ok(d) => if d@.len() == 16 {
                    &&& r matches Ok(k) && k@ == (LoadedKeyV {
                        key_data: d@,
                        iv: key_info.iv.deep_view(),
                        method: key_info.method,
                    })
                    &&& unique_uris(final(self).keys())
                    &&& key_for(final(self).keys(), uri@) == Some(r->Ok_0@)
                    &&& forall|u: Seq<char>| u != uri@ ==> key_for(final(self).keys(), u) == key_for(
                        old(self).keys(),
                        u,
                    )
                } else {
                    &&& r matches Err(e) && e.plain(
                        ErrorCategory::Network,
                        ErrorCode::KeyLoadError,
                        key_size_message(d@.len()),
                    )
                    &&& final(self).keys() == old(self).keys()
                },
            },
    {
        match fetched {
            Err(e) => Err(e),
            Ok(data) => match accept_key(key_info, data) {
                Ok(k) => {
                    self.store_key(uri, k.copied());
                    Ok(k)
                },
                Err(e) => Err(e),
            },
        }
    }

    /// Clears the key cache.
    pub fn clear_key_cache(&mut self)
        ensures
            final(self).keys() == Seq::<(Seq<char>, LoadedKeyV)>::empty(),
            final(self).inits() == old(self).inits(),
            final(self).load_id() == old(self).load_id(),
            final(self).base() == old(self).base(),
    {
        self.key_cache = Vec::new();
        assert(self.keys() =~= Seq::<(Seq<char>, LoadedKeyV)>::empty());
    }

    /// Starts a load: the load id moves on, and the new id names the load.
    pub fn begin_load(&mut self) -> (r: u64)
        ensures
            r == final(self).load_id(),
            final(self).load_id() == old(self).load_id().wrapping_add(1),
            final(self).inits() == old(self).inits(),
            final(self).keys() == old(self).keys(),
            final(self).base() == old(self).base(),
    {
        proof {
            use_type_invariant(&*self);
        }
        self.current_load_id = self.current_load_id.wrapping_add(1);
        self.current_load_id
    }

    /// Cancels the current load (for seeking): the load id moves on.
    pub fn cancel_load(&mut self)
        ensures
            final(self).load_id() == old(self).load_id().wrapping_add(1),
            final(self).inits() == old(self).inits(),
            final(self).keys() == old(self).keys(),
            final(self).base() == old(self).base(),
    {
        proof {
            use_type_invariant(&*self);
        }
        self.current_load_id = self.current_load_id.wrapping_add(1);
    }

    /// Whether a load is still the current one (not cancelled).
    pub fn is_load_valid(&self, load_id: u64) -> (r: bool)
        ensures
            r == (load_id == self.load_id()),
    {
        load_id == self.current_load_id
    }
}

} // verus!
