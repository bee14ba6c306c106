//! Master playlists: quality levels, alternative renditions and session data.
use crate::attributes::{attributes_of, Attributes};
use crate::hls::error::{ErrorCode, HlsError};
use crate::hls::playlist::{
    fits, key_from_attrs, key_iv_breaks, key_iv_would_break, level_from_attrs, parse_key_info, parse_session_data,
    rendition_from_attrs, resolve_url_chars, resolved_url, session_data_from_attrs, KeyInfo,
    KeyInfoV, Level, LevelV, Rendition, RenditionType, RenditionV, SessionData, SessionDataV,
    opt_key_view, opt_rendition_view,
};
use crate::text::{chars_of, has_prefix, split_lines, starts_with_str, string_of,
    strip_prefix_str, text_lines, trim, trim_chars};
use vstd::prelude::*;

verus! {

/// A master playlist: quality levels and alternative renditions.
#[derive(Clone, Debug)]
pub struct MasterPlaylist {
    pub levels: Vec<Level>,
    pub audio_renditions: Vec<Rendition>,
    pub subtitle_renditions: Vec<Rendition>,
    pub cc_renditions: Vec<Rendition>,
    pub session_data: Vec<SessionData>,
    pub session_keys: Vec<KeyInfo>,
}

/// The views of a sequence of levels.
pub open spec fn level_views(v: Seq<Level>) -> Seq<LevelV> {
    v.map_values(|l: Level| l@)
}

/// The views of a sequence of renditions.
pub open spec fn rendition_views(v: Seq<Rendition>) -> Seq<RenditionV> {
    v.map_values(|r: Rendition| r@)
}

/// The views of a sequence of session data.
pub open spec fn session_data_views(v: Seq<SessionData>) -> Seq<SessionDataV> {
    v.map_values(|d: SessionData| d@)
}

/// The views of a sequence of keys.
pub open spec fn key_views(v: Seq<KeyInfo>) -> Seq<KeyInfoV> {
    v.map_values(|k: KeyInfo| k@)
}

/// A master playlist as plain values.
pub struct MasterPlaylistV {
    pub levels: Seq<LevelV>,
    pub audio_renditions: Seq<RenditionV>,
    pub subtitle_renditions: Seq<RenditionV>,
    pub cc_renditions: Seq<RenditionV>,
    pub session_data: Seq<SessionDataV>,
    pub session_keys: Seq<KeyInfoV>,
}

impl View for MasterPlaylist {
    type V = MasterPlaylistV;

    open spec fn view(&self) -> MasterPlaylistV {
        MasterPlaylistV {
            levels: level_views(self.levels@),
            audio_renditions: rendition_views(self.audio_renditions@),
            subtitle_renditions: rendition_views(self.subtitle_renditions@),
            cc_renditions: rendition_views(self.cc_renditions@),
            session_data: session_data_views(self.session_data@),
            session_keys: key_views(self.session_keys@),
        }
    }
}

/// What reading a master playlist has gathered after some of its lines.
#[verifier::ext_equal]
pub struct MasterScan {
    pub levels: Seq<LevelV>,
    pub audio: Seq<RenditionV>,
    pub subtitles: Seq<RenditionV>,
    pub captions: Seq<RenditionV>,
    pub session_data: Seq<SessionDataV>,
    pub session_keys: Seq<KeyInfoV>,
    /// The attributes of a `#EXT-X-STREAM-INF` tag that still waits for its URL
    pub pending: Option<Map<Seq<char>, Seq<char>>>,
    /// Some key's IV would be sliced through a character
    pub breaks: bool,
}

/// Nothing read yet.
pub open spec fn master_start() -> MasterScan {
    MasterScan {
        levels: Seq::empty(),
        audio: Seq::empty(),
        subtitles: Seq::empty(),
        captions: Seq::empty(),
        session_data: Seq::empty(),
        session_keys: Seq::empty(),
        pending: None,
        breaks: false,
    }
}

/// Reading one more line of a master playlist at URL `base`. Lines are trimmed.
/// A `#EXT-X-STREAM-INF` tag waits for the next line that is neither empty nor a
/// tag, which is the level's URL; while it waits, other lines are passed over.
/// Otherwise `#EXT-X-MEDIA`, `#EXT-X-SESSION-DATA` and `#EXT-X-SESSION-KEY` tags
/// add renditions (video renditions are dropped), session data and keys.
pub open spec fn master_step(st: MasterScan, raw: Seq<char>, base: Seq<char>) -> MasterScan {
    let line = trim(raw);
    if has_prefix(line, "#EXT-X-STREAM-INF:"@) {
        MasterScan {
            pending: Some(attributes_of(line.skip("#EXT-X-STREAM-INF:"@.len() as int))),
            ..st
        }
    } else if st.pending is Some {
        if !has_prefix(line, "#"@) && line.len() > 0 {
            MasterScan {
                levels: st.levels.push(
                    level_from_attrs(st.levels.len() as usize, st.pending->0, resolved_url(base, line)),
                ),
                pending: None,
                ..st
            }
        } else {
            st
        }
    } else if has_prefix(line, "#EXT-X-MEDIA:"@) {
        match rendition_from_attrs(attributes_of(line.skip("#EXT-X-MEDIA:"@.len() as int))) {
            Some(r) => match r.media_type {
                RenditionType::Audio => MasterScan { audio: st.audio.push(r), ..st },
                RenditionType::Subtitles => MasterScan { subtitles: st.subtitles.push(r), ..st },
                RenditionType::ClosedCaptions => MasterScan { captions: st.captions.push(r), ..st },
                RenditionType::Video => st,
            },
            None => st,
        }
    } else if has_prefix(line, "#EXT-X-SESSION-DATA:"@) {
        match session_data_from_attrs(attributes_of(line.skip("#EXT-X-SESSION-DATA:"@.len() as int))) {
            Some(d) => MasterScan { session_data: st.session_data.push(d), ..st },
            None => st,
        }
    } else if has_prefix(line, "#EXT-X-SESSION-KEY:"@) {
        let m = attributes_of(line.skip("#EXT-X-SESSION-KEY:"@.len() as int));
        MasterScan {
            session_keys: match key_from_attrs(m) {
                Some(k) => st.session_keys.push(k),
                None => st.session_keys,
            },
            breaks: st.breaks || key_iv_breaks(m),
            ..st
        }
    } else {
        st
    }
}

/// Reading the lines `lines` of a master playlist at URL `base`.
pub open spec fn master_scan(lines: Seq<Seq<char>>, base: Seq<char>) -> MasterScan
    decreases lines.len(),
{
    if lines.len() == 0 {
        master_start()
    } else {
        master_step(master_scan(lines.drop_last(), base), lines.last(), base)
    }
}

/// A `#EXT-X-MEDIA` line read while no variant waits for its URL lists the
/// rendition it describes, when it describes one, at the end of the list of
/// its kind (audio, subtitles or closed captions; a video rendition is not
/// listed); no other list changes, and no rendition of a list is lost or
/// moved. A line that describes no rendition changes no list.
pub proof fn law_master_renditions_listed(lines: Seq<Seq<char>>, line: Seq<char>, base: Seq<char>)
    requires
        master_scan(lines, base).pending is None,
        has_prefix(trim(line), "#EXT-X-MEDIA:"@),
    ensures
        ({
            let before = master_scan(lines, base);
            let after = master_scan(lines.push(line), base);
            let t = trim(line);
            &&& after.levels == before.levels
            &&& after.session_data == before.session_data
            &&& after.session_keys == before.session_keys
            &&& match rendition_from_attrs(attributes_of(t.skip("#EXT-X-MEDIA:"@.len() as int))) {
                Some(r) => {
                    &&& after.audio == (if r.media_type == RenditionType::Audio {
                        before.audio.push(r)
                    } else {
                        before.audio
                    })
                    &&& after.subtitles == (if r.media_type == RenditionType::Subtitles {
                        before.subtitles.push(r)
                    } else {
                        before.subtitles
                    })
                    &&& after.captions == (if r.media_type == RenditionType::ClosedCaptions {
                        before.captions.push(r)
                    } else {
                        before.captions
                    })
                },
                None => after.audio == before.audio && after.subtitles == before.subtitles
                    && after.captions == before.captions,
            }
        }),
{
    reveal_strlit("#EXT-X-MEDIA:");
    reveal_strlit("#EXT-X-STREAM-INF:");
    let t = trim(line);
    assert(lines.push(line).drop_last() =~= lines);
    assert(!has_prefix(t, "#EXT-X-STREAM-INF:"@)) by {
        assert(t.take(13) == "#EXT-X-MEDIA:"@);
        assert(t.take(13)[7] == t[7]);
        assert("#EXT-X-MEDIA:"@[7] == 'M');
        assert("#EXT-X-STREAM-INF:"@[7] == 'S');
    }
}

/// A `#EXT-X-STREAM-INF` tag followed by a URL line adds one level at the
/// end of the levels read so far, made from the tag's attributes and the URL
/// resolved against the playlist's URL; the renditions, session data and
/// session keys read so far stay as they were, and no level waits any more.
pub proof fn law_master_variant_listed(
    lines: Seq<Seq<char>>,
    tag: Seq<char>,
    url: Seq<char>,
    base: Seq<char>,
)
    requires
        has_prefix(trim(tag), "#EXT-X-STREAM-INF:"@),
        !has_prefix(trim(url), "#"@),
        trim(url).len() > 0,
    ensures
        ({
            let before = master_scan(lines, base);
            let after = master_scan(lines.push(tag).push(url), base);
            &&& after.levels == before.levels.push(
                level_from_attrs(
                    before.levels.len() as usize,
                    attributes_of(trim(tag).skip("#EXT-X-STREAM-INF:"@.len() as int)),
                    resolved_url(base, trim(url)),
                ),
            )
            &&& after.pending is None
            &&& after.audio == before.audio
            &&& after.subtitles == before.subtitles
            &&& after.captions == before.captions
            &&& after.session_data == before.session_data
            &&& after.session_keys == before.session_keys
        }),
{
    reveal_strlit("#EXT-X-STREAM-INF:");
    reveal_strlit("#");
    let p = lines.push(tag);
    assert(p.drop_last() =~= lines);
    assert(p.push(url).drop_last() =~= p);
    let u = trim(url);
    assert(!has_prefix(u, "#EXT-X-STREAM-INF:"@)) by {
        if has_prefix(u, "#EXT-X-STREAM-INF:"@) {
            assert(u.take(18) == "#EXT-X-STREAM-INF:"@);
            assert(u.take(18)[0] == u[0]);
            assert("#EXT-X-STREAM-INF:"@[0] == '#');
            assert(u.take(1) =~= "#"@);
            assert(has_prefix(u, "#"@));
        }
    }
    let before = master_scan(lines, base);
    let mid = master_scan(p, base);
    assert(mid == master_step(before, tag, base));
    assert(mid.pending == Some(attributes_of(trim(tag).skip("#EXT-X-STREAM-INF:"@.len() as int))));
    assert(mid.levels == before.levels);
    let after = master_scan(p.push(url), base);
    assert(after == master_step(mid, url, base));
}

/// The lines of `text` start with a `#EXTM3U` header.
pub open spec fn has_m3u_header(text: Seq<char>) -> bool {
    text_lines(text).len() > 0 && has_prefix(text_lines(text)[0], "#EXTM3U"@)
}

/// `sorted` (ordered by bitrate, highest first) with `x` inserted after every
/// level whose bitrate is at least that of `x`.
pub open spec fn insert_by_bitrate(sorted: Seq<LevelV>, x: LevelV) -> Seq<LevelV>
    decreases sorted.len(),
{
    if sorted.len() == 0 || sorted.last().bitrate >= x.bitrate {
        sorted.push(x)
    } else {
        insert_by_bitrate(sorted.drop_last(), x).push(sorted.last())
    }
}

/// `levels` in order of bitrate, highest first; levels of equal bitrate keep their
/// order (a stable sort).
pub open spec fn sort_by_bitrate(levels: Seq<LevelV>) -> Seq<LevelV>
    decreases levels.len(),
{
    if levels.len() == 0 {
        Seq::empty()
    } else {
        insert_by_bitrate(sort_by_bitrate(levels.drop_last()), levels.last())
    }
}

/// `levels` with each level's index set to its position.
pub open spec fn reindexed(levels: Seq<LevelV>) -> Seq<LevelV> {
    Seq::new(levels.len(), |i: int| LevelV { index: i as usize, ..levels[i] })
}

/// The master playlist that `text`, fetched from `base`, holds; `None` when it
/// lacks the `#EXTM3U` header. Levels are ordered by bitrate, highest first, and
/// indexed by position.
pub open spec fn master_from_text(text: Seq<char>, base: Seq<char>) -> Option<MasterPlaylistV> {
    if !has_m3u_header(text) {
        None
    } else {
        let st = master_scan(text_lines(text), base);
        Some(
            MasterPlaylistV {
                levels: reindexed(sort_by_bitrate(st.levels)),
                audio_renditions: st.audio,
                subtitle_renditions: st.subtitles,
                cc_renditions: st.captions,
                session_data: st.session_data,
                session_keys: st.session_keys,
            },
        )
    }
}

/// Reading `text` as a master playlist would slice a key's IV through a character.
pub open spec fn master_text_breaks(text: Seq<char>, base: Seq<char>) -> bool {
    has_m3u_header(text) && master_scan(text_lines(text), base).breaks
}

/// Levels ordered by bitrate, highest first.
pub open spec fn bitrate_descending(levels: Seq<LevelV>) -> bool {
    forall|i: int, j: int| 0 <= i < j < levels.len() ==> levels[i].bitrate >= levels[j].bitrate
}

/// Inserting keeps the order by bitrate.
pub proof fn lemma_insert_keeps_order(sorted: Seq<LevelV>, x: LevelV)
    requires
        bitrate_descending(sorted),
    ensures
        bitrate_descending(insert_by_bitrate(sorted, x)),
        insert_by_bitrate(sorted, x).len() == sorted.len() + 1,
        forall|i: int|
            0 <= i < insert_by_bitrate(sorted, x).len() ==> (#[trigger] insert_by_bitrate(
                sorted,
                x,
            )[i] == x || sorted.contains(insert_by_bitrate(sorted, x)[i])),
    decreases sorted.len(),
{
    if sorted.len() == 0 || sorted.last().bitrate >= x.bitrate {
    } else {
        let s0 = sorted.drop_last();
        lemma_insert_keeps_order(s0, x);
        let r0 = insert_by_bitrate(s0, x);
        let r = r0.push(sorted.last());
        assert forall|i: int| 0 <= i < r0.len() implies r0[i].bitrate >= sorted.last().bitrate by {
            if r0[i] == x {
            } else {
                assert(s0.contains(r0[i]));
                let k = choose|k: int| 0 <= k < s0.len() && s0[k] == r0[i];
                assert(sorted[k] == s0[k]);
            }
        }
        assert forall|i: int| 0 <= i < r.len() implies (#[trigger] r[i] == x || sorted.contains(r[i])) by {
            if i < r0.len() {
                if r0[i] != x {
                    let k = choose|k: int| 0 <= k < s0.len() && s0[k] == r0[i];
                    assert(sorted[k] == s0[k]);
                }
            } else {
                assert(sorted[sorted.len() - 1] == r[i]);
            }
        }
    }
}

/// The sort orders by bitrate, highest first.
pub proof fn lemma_sort_ordered(levels: Seq<LevelV>)
    ensures
        bitrate_descending(sort_by_bitrate(levels)),
        sort_by_bitrate(levels).len() == levels.len(),
    decreases levels.len(),
{
    if levels.len() > 0 {
        lemma_sort_ordered(levels.drop_last());
        lemma_insert_keeps_order(sort_by_bitrate(levels.drop_last()), levels.last());
    }
}

/// The levels of a master playlist are ordered by bitrate, highest first, and
/// each level's index is its position.
pub proof fn law_master_levels_ordered(text: Seq<char>, base: Seq<char>)
    ensures
        master_from_text(text, base) matches Some(m) ==> {
            &&& bitrate_descending(m.levels)
            &&& forall|i: int| 0 <= i < m.levels.len() ==> #[trigger] m.levels[i].index == i as usize
        },
{
    if has_m3u_header(text) {
        let st = master_scan(text_lines(text), base);
        let sorted = sort_by_bitrate(st.levels);
        lemma_sort_ordered(st.levels);
        let r = reindexed(sorted);
        assert forall|i: int, j: int| 0 <= i < j < r.len() implies r[i].bitrate >= r[j].bitrate by {
            assert(r[i].bitrate == sorted[i].bitrate && r[j].bitrate == sorted[j].bitrate);
        }
    }
}

/// Inserting at the position found by scanning from the end.
proof fn lemma_insert_scan_step(s: Seq<LevelV>, p: int, x: LevelV)
    requires
        0 < p <= s.len(),
        s[p - 1].bitrate < x.bitrate,
    ensures
        insert_by_bitrate(s.take(p), x) + s.skip(p) == insert_by_bitrate(s.take(p - 1), x) + s.skip(
            p - 1,
        ),
{
    assert(s.take(p).drop_last() =~= s.take(p - 1));
    assert(s.take(p).last() == s[p - 1]);
    assert(insert_by_bitrate(s.take(p - 1), x).push(s[p - 1]) + s.skip(p) =~= insert_by_bitrate(
        s.take(p - 1),
        x,
    ) + s.skip(p - 1));
}

impl Level {
    /// A copy of this level.
    pub fn copied(&self) -> (r: Level)
        ensures
            r@ == self@,
    {
        Level {
            index: self.index,
            bitrate: self.bitrate,
            avg_bitrate: self.avg_bitrate,
            resolution: self.resolution,
            video_codec: copy_opt(&self.video_codec),
            audio_codec: copy_opt(&self.audio_codec),
            codecs: copy_opt(&self.codecs),
            frame_rate: copy_opt(&self.frame_rate),
            hdcp_level: copy_opt(&self.hdcp_level),
            audio_group: copy_opt(&self.audio_group),
            subtitle_group: copy_opt(&self.subtitle_group),
            cc_group: copy_opt(&self.cc_group),
            url: self.url.clone(),
            name: self.name.clone(),
        }
    }
}

/// A copy of an optional string.
pub fn copy_opt(s: &Option<String>) -> (r: Option<String>)
    ensures
        r.deep_view() == s.deep_view(),
{
    match s {
        Some(v) => Some(v.clone()),
        None => None,
    }
}

/// Sorts levels by bitrate, highest first, keeping the order of equal bitrates,
/// and sets each level's index to its position.
pub fn sort_levels(levels: Vec<Level>) -> (r: Vec<Level>)
    ensures
        level_views(r@) == reindexed(sort_by_bitrate(level_views(levels@))),
{
    let ghost input = level_views(levels@);
    let mut sorted: Vec<Level> = Vec::new();
    let mut k: usize = 0;
    while k < levels.len()
        invariant
            input == level_views(levels@),
            k <= input.len(),
            level_views(sorted@) == sort_by_bitrate(input.take(k as int)),
        decreases levels.len() - k,
    {
        let x = levels[k].copied();
        proof {
            assert(input.take(k + 1).drop_last() =~= input.take(k as int));
            assert(input.take(k + 1).last() == x@);
        }
        let ghost s = level_views(sorted@);
        let mut p: usize = sorted.len();
        assert(s.take(p as int) =~= s);
        assert(s.skip(p as int) =~= Seq::<LevelV>::empty());
        assert(insert_by_bitrate(s, x@) =~= insert_by_bitrate(s.take(p as int), x@) + s.skip(p as int));
        while p > 0 && sorted[p - 1].bitrate < x.bitrate
            invariant
                s == level_views(sorted@),
                p <= s.len(),
                insert_by_bitrate(s, x@) == insert_by_bitrate(s.take(p as int), x@) + s.skip(p as int),
            decreases p,
        {
            proof {
                assert(s[p - 1] == sorted@[p - 1]@);
                lemma_insert_scan_step(s, p as int, x@);
            }
            p -= 1;
        }
        proof {
            if p > 0 {
                assert(s[p - 1] == sorted@[p - 1]@);
                assert(s.take(p as int).last() == s[p - 1]);
            }
        }
        let ghost xv = x@;
        sorted.insert(p, x);
        proof {
            assert(insert_by_bitrate(s.take(p as int), xv) == s.take(p as int).push(xv));
            assert(level_views(sorted@) =~= s.take(p as int).push(xv) + s.skip(p as int));
        }
        k += 1;
    }
    assert(input.take(input.len() as int) =~= input);
    // set the indexes
    let ghost ordered = level_views(sorted@);
    let mut i: usize = 0;
    while i < sorted.len()
        invariant
            sorted@.len() == ordered.len(),
            i <= sorted@.len(),
            forall|j: int| 0 <= j < i ==> #[trigger] level_views(sorted@)[j] == reindexed(ordered)[j],
            forall|j: int| i <= j < sorted@.len() ==> #[trigger] level_views(sorted@)[j] == ordered[j],
        decreases sorted.len() - i,
    {
        let ghost before = sorted@;
        assert(level_views(before)[i as int] == ordered[i as int]);
        sorted[i].index = i;
        proof {
            assert(sorted@[i as int].index == i);
            assert(sorted@[i as int].url == before[i as int].url);
            assert forall|j: int| 0 <= j < sorted@.len() && j != i implies sorted@[j] == before[j] by {}
            assert(level_views(sorted@)[i as int] == reindexed(ordered)[i as int]);
            assert forall|j: int| 0 <= j < i + 1 implies #[trigger] level_views(sorted@)[j] == reindexed(ordered)[j] by {
                if j < i {
                    assert(level_views(before)[j] == reindexed(ordered)[j]);
                }
            }
            assert forall|j: int| i + 1 <= j < sorted@.len() implies #[trigger] level_views(sorted@)[j] == ordered[j] by {
                assert(level_views(before)[j] == ordered[j]);
            }
        }
        i += 1;
    }
    assert(level_views(sorted@) =~= reindexed(ordered));
    sorted
}

/// `breaks` only ever turns true as more lines are read.
pub proof fn lemma_master_breaks_monotone(lines: Seq<Seq<char>>, base: Seq<char>, i: int)
    requires
        0 <= i <= lines.len(),
        master_scan(lines.take(i), base).breaks,
    ensures
        master_scan(lines, base).breaks,
    decreases lines.len() - i,
{
    if i < lines.len() {
        assert(lines.take(i + 1).drop_last() =~= lines.take(i));
        lemma_master_breaks_monotone(lines, base, i + 1);
    } else {
        assert(lines.take(i) =~= lines);
    }
}

/// The state of reading a master playlist.
struct MasterReader {
    levels: Vec<Level>,
    audio: Vec<Rendition>,
    subtitles: Vec<Rendition>,
    captions: Vec<Rendition>,
    session_data: Vec<SessionData>,
    session_keys: Vec<KeyInfo>,
    pending: Option<Attributes>,
}

impl MasterReader {
    /// What has been gathered, as plain values.
    spec fn scan(&self, breaks: bool) -> MasterScan {
        MasterScan {
            levels: level_views(self.levels@),
            audio: rendition_views(self.audio@),
            subtitles: rendition_views(self.subtitles@),
            captions: rendition_views(self.captions@),
            session_data: session_data_views(self.session_data@),
            session_keys: key_views(self.session_keys@),
            pending: match self.pending {
                Some(a) => Some(a@),
                None => None,
            },
            breaks,
        }
    }

    /// Reads one line.
    fn read_line(&mut self, raw: &[char], base: &[char])
        requires
            !master_step(old(self).scan(false), raw@, base@).breaks,
        ensures
            final(self).scan(false) == master_step(old(self).scan(false), raw@, base@),
    {
        let line = trim_chars(raw);
        proof {
            reveal_strlit("#EXT-X-STREAM-INF:");
            reveal_strlit("#EXT-X-MEDIA:");
            reveal_strlit("#EXT-X-SESSION-DATA:");
            reveal_strlit("#EXT-X-SESSION-KEY:");
            reveal_strlit("#");
        }
        if let Some(rest) = strip_prefix_str(line, "#EXT-X-STREAM-INF:") {
            self.pending = Some(Attributes::parse(rest));
            return;
        }
        if self.pending.is_some() {
            if !starts_with_str(line, "#") && line.len() > 0 {
                let url = resolve_url_chars(base, line);
                let url_s = string_of(url.as_slice());
                let attrs = self.pending.take().unwrap();
                let ghost old_levels = self.levels@;
                let lv = Level::from_stream_inf(self.levels.len(), &attrs, url_s.as_str());
                self.levels.push(lv);
                assert(level_views(self.levels@) =~= level_views(old_levels).push(lv@));
            }
            return;
        }
        if let Some(rest) = strip_prefix_str(line, "#EXT-X-MEDIA:") {
            let attrs = Attributes::parse(rest);
            match Rendition::parse(&attrs) {
                Some(r) => {
                    match r.media_type {
                        RenditionType::Audio => {
                            let ghost old = self.audio@;
                            self.audio.push(r);
                            assert(rendition_views(self.audio@) =~= rendition_views(old).push(r@));
                        },
                        RenditionType::Subtitles => {
                            let ghost old = self.subtitles@;
                            self.subtitles.push(r);
                            assert(rendition_views(self.subtitles@) =~= rendition_views(old).push(r@));
                        },
                        RenditionType::ClosedCaptions => {
                            let ghost old = self.captions@;
                            self.captions.push(r);
                            assert(rendition_views(self.captions@) =~= rendition_views(old).push(r@));
                        },
                        RenditionType::Video => {},
                    }
                },
                None => {},
            }
            return;
        }
        if let Some(rest) = strip_prefix_str(line, "#EXT-X-SESSION-DATA:") {
            let attrs = Attributes::parse(rest);
            match parse_session_data(&attrs) {
                Some(d) => {
                    let ghost old = self.session_data@;
                    self.session_data.push(d);
                    assert(session_data_views(self.session_data@) =~= session_data_views(old).push(d@));
                },
                None => {},
            }
            return;
        }
        if let Some(rest) = strip_prefix_str(line, "#EXT-X-SESSION-KEY:") {
            let attrs = Attributes::parse(rest);
            match parse_key_info(&attrs) {
                Some(k) => {
                    let ghost old = self.session_keys@;
                    self.session_keys.push(k);
                    assert(key_views(self.session_keys@) =~= key_views(old).push(k@));
                },
                None => {},
            }
            return;
        }
    }
}

/// A `#EXT-X-SESSION-KEY` line is none of the other tags a master playlist reads.
proof fn lemma_session_key_line(line: Seq<char>)
    requires
        has_prefix(line, "#EXT-X-SESSION-KEY:"@),
    ensures
        !has_prefix(line, "#EXT-X-STREAM-INF:"@),
        !has_prefix(line, "#EXT-X-MEDIA:"@),
        !has_prefix(line, "#EXT-X-SESSION-DATA:"@),
        has_prefix(line, "#"@),
{
    reveal_strlit("#EXT-X-SESSION-KEY:");
    reveal_strlit("#EXT-X-STREAM-INF:");
    reveal_strlit("#EXT-X-MEDIA:");
    reveal_strlit("#EXT-X-SESSION-DATA:");
    reveal_strlit("#");
    assert(line[0] == line.take(19)[0]);
    assert(line[8] == line.take(19)[8]);
    assert(line[15] == line.take(19)[15]);
    assert(line.take(1) =~= "#"@);
    if has_prefix(line, "#EXT-X-STREAM-INF:"@) {
        assert(line[8] == line.take(18)[8]);
    }
    assert(line[7] == line.take(19)[7]);
    if has_prefix(line, "#EXT-X-MEDIA:"@) {
        assert(line[7] == line.take(13)[7]);
    }
    if has_prefix(line, "#EXT-X-SESSION-DATA:"@) {
        assert(line[15] == line.take(20)[15]);
    }
}

/// Whether reading `text` as a master playlist would slice a key's IV through
/// a character (see [`MasterPlaylist::parse`]).
pub fn master_text_would_break(text: &str, base_url: &str) -> (r: bool)
    ensures
        r == master_text_breaks(text@, base_url@),
{
    let chars = chars_of(text);
    let lines = split_lines(chars.as_slice());
    let ghost ls = lines.deep_view();
    if lines.len() == 0 || !starts_with_str(lines[0].as_slice(), "#EXTM3U") {
        proof {
            if lines.len() > 0 {
                assert(ls[0] == lines@[0]@);
            }
        }
        return false;
    }
    assert(ls[0] == lines@[0]@);
    let mut pending = false;
    let mut breaks = false;
    let mut i: usize = 0;
    assert(ls.take(0) =~= Seq::<Seq<char>>::empty());
    while i < lines.len()
        invariant
            ls == lines.deep_view(),
            ls == text_lines(text@),
            i <= ls.len(),
            pending == master_scan(ls.take(i as int), base_url@).pending is Some,
            breaks == master_scan(ls.take(i as int), base_url@).breaks,
        decreases lines.len() - i,
    {
        proof {
            assert(ls.take(i + 1).drop_last() =~= ls.take(i as int));
            assert(ls.take(i + 1).last() == lines@[i as int]@);
        }
        let line = trim_chars(lines[i].as_slice());
        if starts_with_str(line, "#EXT-X-STREAM-INF:") {
            pending = true;
        } else if pending {
            if !starts_with_str(line, "#") && line.len() > 0 {
                pending = false;
            }
        } else {
            match strip_prefix_str(line, "#EXT-X-SESSION-KEY:") {
                Some(rest) => {
                    proof {
                        lemma_session_key_line(line@);
                    }
                    let attrs = Attributes::parse(rest);
                    if key_iv_would_break(&attrs) {
                        breaks = true;
                    }
                },
                None => {},
            }
        }
        i += 1;
    }
    assert(ls.take(i as int) =~= ls);
    breaks
}

impl MasterPlaylist {
    /// Parses a master playlist from its text, fetched from `base_url`.
    ///
    /// Fails with a manifest parsing error when the text lacks the `#EXTM3U` header.
    pub fn parse(text: &str, base_url: &str) -> (r: Result<Self, HlsError>)
        requires
            !master_text_breaks(text@, base_url@),
        ensures
            match r {
                Ok(p) => master_from_text(text@, base_url@) == Some(p@),
                Err(e) => master_from_text(text@, base_url@) is None && e.plain(
                    crate::hls::error::ErrorCategory::Manifest,
                    ErrorCode::ManifestParsingError,
                    "Invalid M3U8 playlist - missing #EXTM3U tag"@,
                ),
            },
    {
        let chars = chars_of(text);
        let base = chars_of(base_url);
        let lines = split_lines(chars.as_slice());
        let ghost ls = lines.deep_view();
        if lines.len() == 0 || !starts_with_str(lines[0].as_slice(), "#EXTM3U") {
            proof {
                if lines.len() > 0 {
                    assert(ls[0] == lines@[0]@);
                }
            }
            return Err(
                HlsError::manifest(
                    ErrorCode::ManifestParsingError,
                    "Invalid M3U8 playlist - missing #EXTM3U tag",
                ),
            );
        }
        assert(ls[0] == lines@[0]@);
        let mut rd = MasterReader {
            levels: Vec::new(),
            audio: Vec::new(),
            subtitles: Vec::new(),
            captions: Vec::new(),
            session_data: Vec::new(),
            session_keys: Vec::new(),
            pending: None,
        };
        assert(ls.take(0) =~= Seq::<Seq<char>>::empty());
        assert(rd.scan(false) =~= master_scan(ls.take(0), base@));
        let mut i: usize = 0;
        while i < lines.len()
            invariant
                ls == lines.deep_view(),
                ls == text_lines(text@),
                chars@ == text@,
                base@ == base_url@,
                i <= ls.len(),
                !master_scan(ls, base@).breaks,
                rd.scan(false) == master_scan(ls.take(i as int), base@),
            decreases lines.len() - i,
        {
            proof {
                assert(ls.take(i + 1).drop_last() =~= ls.take(i as int));
                assert(ls.take(i + 1).last() == lines@[i as int]@);
                if master_scan(ls.take(i + 1), base@).breaks {
                    lemma_master_breaks_monotone(ls, base@, i + 1);
                }
            }
            rd.read_line(lines[i].as_slice(), base.as_slice());
            i += 1;
        }
        assert(ls.take(i as int) =~= ls);
        let levels = sort_levels(rd.levels);
        Ok(
            MasterPlaylist {
                levels,
                audio_renditions: rd.audio,
                subtitle_renditions: rd.subtitles,
                cc_renditions: rd.captions,
                session_data: rd.session_data,
                session_keys: rd.session_keys,
            },
        )
    }

    /// The level at `index`, if there is one.
    pub fn get_level(&self, index: usize) -> (r: Option<&Level>)
        ensures
            match r {
                Some(l) => index < self.levels@.len() && l == self.levels@[index as int],
                None => index >= self.levels@.len(),
            },
    {
        if index < self.levels.len() {
            Some(&self.levels[index])
        } else {
            None
        }
    }

    /// The levels that fit within a maximum width and height (0 = no limit), in order.
    pub fn levels_within_resolution(&self, max_width: u32, max_height: u32) -> (r: Vec<&Level>)
        ensures
            r@.map_values(|l: &Level| *l) == self.levels@.filter(
                |l: Level| fits(l.resolution, max_width, max_height),
            ),
    {
        let mut out: Vec<&Level> = Vec::new();
        let mut i: usize = 0;
        while i < self.levels.len()
            invariant
                i <= self.levels@.len(),
                out@.map_values(|l: &Level| *l) == self.levels@.take(i as int).filter(
                    |l: Level| fits(l.resolution, max_width, max_height),
                ),
            decreases self.levels.len() - i,
        {
            let l = &self.levels[i];
            let ghost before = out@;
            proof {
                reveal_with_fuel(Seq::filter, 1);
                assert(self.levels@.take(i + 1).drop_last() =~= self.levels@.take(i as int));
            }
            if l.fits_resolution(max_width, max_height) {
                out.push(l);
                assert(out@.map_values(|l: &Level| *l) =~= before.map_values(|l: &Level| *l).push(*l));
            } else {
                assert(out@ == before);
            }
            i += 1;
        }
        assert(self.levels@.take(i as int) =~= self.levels@);
        out
    }

    /// The index of the level with the highest bitrate that does not exceed
    /// `bandwidth` (of several such levels, the last).
    pub fn best_level_for_bandwidth(&self, bandwidth: u64) -> (r: Option<usize>)
        ensures
            r == match best_fit(level_views(self.levels@), bandwidth) {
                Some(p) => Some(level_views(self.levels@)[p].index),
                None => None,
            },
    {
        let ghost ls = level_views(self.levels@);
        let mut best: Option<usize> = None;
        let mut i: usize = 0;
        while i < self.levels.len()
            invariant
                ls == level_views(self.levels@),
                i <= ls.len(),
                best == match best_fit(ls.take(i as int), bandwidth) {
                    Some(p) => Some(p as usize),
                    None => None,
                },
                best_fit(ls.take(i as int), bandwidth) matches Some(p) ==> 0 <= p < i,
            decreases self.levels.len() - i,
        {
            proof {
                assert(ls.take(i + 1).drop_last() =~= ls.take(i as int));
                assert(ls.take(i + 1).last() == ls[i as int]);
                match best_fit(ls.take(i as int), bandwidth) {
                    Some(p) => {
                        assert(ls.take(i + 1)[p] == ls[p]);
                    },
                    None => {},
                }
            }
            let b = self.levels[i].bitrate;
            if b <= bandwidth {
                match best {
                    None => {
                        best = Some(i);
                    },
                    Some(p) => {
                        if b >= self.levels[p].bitrate {
                            best = Some(i);
                        }
                    },
                }
            }
            i += 1;
        }
        assert(ls.take(i as int) =~= ls);
        match best {
            Some(p) => Some(self.levels[p].index),
            None => None,
        }
    }
}

/// The position of the level with the highest bitrate at most `bandwidth`; of
/// several, the last (as `Iterator::max_by_key` picks).
pub open spec fn best_fit(ls: Seq<LevelV>, bandwidth: u64) -> Option<int>
    decreases ls.len(),
{
    if ls.len() == 0 {
        None
    } else {
        let prev = best_fit(ls.drop_last(), bandwidth);
        let x = ls.last();
        if x.bitrate <= bandwidth && (match prev {
            None => true,
            Some(p) => x.bitrate >= ls[p].bitrate,
        }) {
            Some(ls.len() - 1)
        } else {
            prev
        }
    }
}


/// The level chosen for a bandwidth fits it and has the highest bitrate of
/// all levels that fit; of several with that bitrate it is the last (as
/// `Iterator::max_by_key` picks). No level is chosen exactly when none fits.
pub proof fn law_best_fit(ls: Seq<LevelV>, bandwidth: u64)
    ensures
        match best_fit(ls, bandwidth) {
            Some(p) => {
                &&& 0 <= p < ls.len()
                &&& ls[p].bitrate <= bandwidth
                &&& forall|j: int|
                    0 <= j < ls.len() && #[trigger] ls[j].bitrate <= bandwidth ==> ls[j].bitrate
                        <= ls[p].bitrate
                &&& forall|j: int|
                    p < j < ls.len() && #[trigger] ls[j].bitrate <= bandwidth ==> ls[j].bitrate
                        < ls[p].bitrate
            },
            None => forall|j: int| 0 <= j < ls.len() ==> #[trigger] ls[j].bitrate > bandwidth,
        },
    decreases ls.len(),
{
    if ls.len() > 0 {
        let rest = ls.drop_last();
        law_best_fit(rest, bandwidth);
        let n = ls.len() - 1;
        let x = ls[n];
        assert(x == ls.last());
        assert forall|j: int| 0 <= j < n implies ls[j] == #[trigger] rest[j] by {}
        match best_fit(rest, bandwidth) {
            Some(q) => {
                assert(ls[q] == rest[q]);
                if x.bitrate <= bandwidth && x.bitrate >= ls[q].bitrate {
                    assert(best_fit(ls, bandwidth) == Some(n));
                    assert forall|j: int|
                        0 <= j < ls.len() && #[trigger] ls[j].bitrate <= bandwidth implies ls[j].bitrate
                            <= ls[n].bitrate by {
                        if j < n {
                            assert(ls[j] == rest[j]);
                            assert(rest[j].bitrate <= bandwidth);
                        }
                    }
                } else {
                    assert(best_fit(ls, bandwidth) == Some(q));
                    assert forall|j: int|
                        0 <= j < ls.len() && #[trigger] ls[j].bitrate <= bandwidth implies ls[j].bitrate
                            <= ls[q].bitrate by {
                        if j < n {
                            assert(ls[j] == rest[j]);
                            assert(rest[j].bitrate <= bandwidth);
                        }
                    }
                    assert forall|j: int|
                        q < j < ls.len() && #[trigger] ls[j].bitrate <= bandwidth implies ls[j].bitrate
                            < ls[q].bitrate by {
                        if j < n {
                            assert(ls[j] == rest[j]);
                            assert(rest[j].bitrate <= bandwidth);
                        }
                    }
                }
            },
            None => {
                if x.bitrate <= bandwidth {
                    assert(best_fit(ls, bandwidth) == Some(n));
                    assert forall|j: int|
                        0 <= j < ls.len() && #[trigger] ls[j].bitrate <= bandwidth implies ls[j].bitrate
                            <= ls[n].bitrate by {
                        if j < n {
                            assert(ls[j] == rest[j]);
                            assert(rest[j].bitrate > bandwidth);
                        }
                    }
                } else {
                    assert(best_fit(ls, bandwidth) is None);
                    assert forall|j: int| 0 <= j < ls.len() implies #[trigger] ls[j].bitrate > bandwidth by {
                        if j < n {
                            assert(ls[j] == rest[j]);
                            assert(rest[j].bitrate > bandwidth);
                        }
                    }
                }
            },
        }
    }
}

} // verus!
