//! Media playlists: the segments of one quality level.
use crate::attributes::{attributes_of, Attributes};
use crate::hls::error::{ErrorCategory, ErrorCode, HlsError};
use crate::hls::master::has_m3u_header;
use crate::hls::playlist::{
    attr, attr_float, attr_yes, byte_range_from_text, date_range_from_attrs, key_from_attrs,
    key_iv_breaks, key_iv_would_break, opt_date_range_view, opt_key_view, opt_map_view, parse_byte_range,
    parse_date_range, parse_key_info, resolve_url_chars, resolved_url, DateRangeTag,
    DateRangeTagV, EncryptionMethod, KeyInfo, KeyInfoV, MapInfo, MapInfoV,
};
use crate::attributes::{after, before};
use crate::text::{
    chars_of, eq_str, find_char, float_literal, has_prefix, is_float_literal, lacks, parse_u64,
    split_lines, starts_with_str, string_of, strip_prefix_str, text_lines, trim, trim_chars,
    u64_from_text,
};
use vstd::prelude::*;

verus! {

/// A media segment.
#[derive(Clone, Debug)]
pub struct Segment {
    /// Sequence number
    pub sequence_number: u64,
    /// Duration in seconds, as the decimal text of its `#EXTINF` tag
    pub duration: String,
    /// Segment URI
    pub uri: String,
    /// Byte range (offset, length)
    pub byte_range: Option<(u64, u64)>,
    /// Discontinuity before this segment
    pub discontinuity: bool,
    /// Program date time
    pub program_date_time: Option<String>,
    /// Title/comment
    pub title: Option<String>,
    /// Encryption key info
    pub key: Option<KeyInfo>,
    /// Init segment info (for fMP4)
    pub map: Option<MapInfo>,
    /// Gap marker
    pub gap: bool,
}

/// A segment as plain values.
pub struct SegmentV {
    pub sequence_number: u64,
    pub duration: Seq<char>,
    pub uri: Seq<char>,
    pub byte_range: Option<(u64, u64)>,
    pub discontinuity: bool,
    pub program_date_time: Option<Seq<char>>,
    pub title: Option<Seq<char>>,
    pub key: Option<KeyInfoV>,
    pub map: Option<MapInfoV>,
    pub gap: bool,
}

impl View for Segment {
    type V = SegmentV;

    open spec fn view(&self) -> SegmentV {
        SegmentV {
            sequence_number: self.sequence_number,
            duration: self.duration@,
            uri: self.uri@,
            byte_range: self.byte_range,
            discontinuity: self.discontinuity,
            program_date_time: self.program_date_time.deep_view(),
            title: self.title.deep_view(),
            key: opt_key_view(self.key),
            map: opt_map_view(self.map),
            gap: self.gap,
        }
    }
}

/// Part information for low-latency HLS.
#[derive(Clone, Debug)]
pub struct PartInfo {
    /// The `PART-TARGET` text when it reads as a number (`None` stands for 0)
    pub part_target: Option<String>,
}

/// Server control for low-latency HLS; durations are kept as their decimal text.
#[derive(Clone, Debug)]
pub struct ServerControl {
    pub can_skip_until: Option<String>,
    pub can_block_reload: bool,
    pub hold_back: Option<String>,
    pub part_hold_back: Option<String>,
}

/// Server control as plain values.
pub struct ServerControlV {
    pub can_skip_until: Option<Seq<char>>,
    pub can_block_reload: bool,
    pub hold_back: Option<Seq<char>>,
    pub part_hold_back: Option<Seq<char>>,
}

impl View for ServerControl {
    type V = ServerControlV;

    open spec fn view(&self) -> ServerControlV {
        ServerControlV {
            can_skip_until: self.can_skip_until.deep_view(),
            can_block_reload: self.can_block_reload,
            hold_back: self.hold_back.deep_view(),
            part_hold_back: self.part_hold_back.deep_view(),
        }
    }
}

/// A media playlist.
#[derive(Clone, Debug)]
pub struct MediaPlaylist {
    /// Target segment duration, as the decimal text of `#EXT-X-TARGETDURATION`
    /// (`None` stands for 0)
    pub target_duration: Option<String>,
    /// First segment sequence number
    pub media_sequence: u64,
    /// Discontinuity sequence number
    pub discontinuity_sequence: u64,
    /// Is VOD (video on demand) or live
    pub is_vod: bool,
    /// End list marker present
    pub ended: bool,
    /// Playlist type (VOD/EVENT)
    pub playlist_type: Option<String>,
    /// Segments
    pub segments: Vec<Segment>,
    /// Current init segment (for fMP4)
    pub current_map: Option<MapInfo>,
    /// Date range tags
    pub date_ranges: Vec<DateRangeTag>,
    /// Start offset, as the decimal text of `TIME-OFFSET`
    pub start_offset: Option<String>,
    /// Part information for LL-HLS
    pub part_inf: Option<PartInfo>,
    /// Server control for LL-HLS
    pub server_control: Option<ServerControl>,
}

/// The views of a sequence of segments.
pub open spec fn segment_views(v: Seq<Segment>) -> Seq<SegmentV> {
    v.map_values(|s: Segment| s@)
}

/// The views of a sequence of date ranges.
pub open spec fn date_range_views(v: Seq<DateRangeTag>) -> Seq<DateRangeTagV> {
    v.map_values(|d: DateRangeTag| d@)
}

/// A media playlist as plain values.
pub struct MediaPlaylistV {
    pub target_duration: Option<Seq<char>>,
    pub media_sequence: u64,
    pub discontinuity_sequence: u64,
    pub is_vod: bool,
    pub ended: bool,
    pub playlist_type: Option<Seq<char>>,
    pub segments: Seq<SegmentV>,
    pub current_map: Option<MapInfoV>,
    pub date_ranges: Seq<DateRangeTagV>,
    pub start_offset: Option<Seq<char>>,
    pub part_inf: Option<Option<Seq<char>>>,
    pub server_control: Option<ServerControlV>,
}

impl View for MediaPlaylist {
    type V = MediaPlaylistV;

    open spec fn view(&self) -> MediaPlaylistV {
        MediaPlaylistV {
            target_duration: self.target_duration.deep_view(),
            media_sequence: self.media_sequence,
            discontinuity_sequence: self.discontinuity_sequence,
            is_vod: self.is_vod,
            ended: self.ended,
            playlist_type: self.playlist_type.deep_view(),
            segments: segment_views(self.segments@),
            current_map: opt_map_view(self.current_map),
            date_ranges: date_range_views(self.date_ranges@),
            start_offset: self.start_offset.deep_view(),
            part_inf: match self.part_inf {
                Some(p) => Some(p.part_target.deep_view()),
                None => None,
            },
            server_control: match self.server_control {
                Some(c) => Some(c@),
                None => None,
            },
        }
    }
}

/// What reading a media playlist has gathered after some of its lines.
#[verifier::ext_equal]
pub struct MediaScan {
    pub target_duration: Option<Seq<char>>,
    pub media_sequence: u64,
    pub discontinuity_sequence: u64,
    pub playlist_type: Option<Seq<char>>,
    pub ended: bool,
    pub segments: Seq<SegmentV>,
    pub date_ranges: Seq<DateRangeTagV>,
    pub current_map: Option<MapInfoV>,
    pub current_key: Option<KeyInfoV>,
    pub start_offset: Option<Seq<char>>,
    pub part_inf: Option<Option<Seq<char>>>,
    pub server_control: Option<ServerControlV>,
    pub pending_duration: Option<Seq<char>>,
    pub pending_title: Option<Seq<char>>,
    pub pending_discontinuity: bool,
    pub pending_date_time: Option<Seq<char>>,
    pub pending_byte_range: Option<(u64, u64)>,
    pub pending_gap: bool,
    /// Some key's IV would be sliced through a character
    pub breaks: bool,
}

/// Nothing read yet.
pub open spec fn media_start() -> MediaScan {
    MediaScan {
        target_duration: None,
        media_sequence: 0,
        discontinuity_sequence: 0,
        playlist_type: None,
        ended: false,
        segments: Seq::empty(),
        date_ranges: Seq::empty(),
        current_map: None,
        current_key: None,
        start_offset: None,
        part_inf: None,
        server_control: None,
        pending_duration: None,
        pending_title: None,
        pending_discontinuity: false,
        pending_date_time: None,
        pending_byte_range: None,
        pending_gap: false,
        breaks: false,
    }
}

/// The text when it reads as a floating-point number.
pub open spec fn float_text(t: Seq<char>) -> Option<Seq<char>> {
    if float_literal(t) {
        Some(t)
    } else {
        None
    }
}

/// The text after a tag's prefix.
pub open spec fn tag_rest(line: Seq<char>, tag: Seq<char>) -> Seq<char> {
    line.skip(tag.len() as int)
}

/// Reading one more line of a media playlist at URL `base`. Lines are trimmed.
/// Tags set playlist properties or properties of the next segment; a line that is
/// neither empty nor a tag is a segment URI, which makes a segment when an
/// `#EXTINF` duration is waiting for it (its sequence number is the media sequence
/// plus the number of segments before it, wrapping on overflow).
pub open spec fn media_step(st: MediaScan, raw: Seq<char>, base: Seq<char>) -> MediaScan {
    let line = trim(raw);
    if has_prefix(line, "#EXTINF:"@) {
        let rest = tag_rest(line, "#EXTINF:"@);
        MediaScan {
            pending_duration: float_text(trim(before(rest, ','))),
            pending_title: if lacks(rest, ',') {
                None
            } else {
                Some(trim(after(rest, ',')))
            },
            ..st
        }
    } else if has_prefix(line, "#EXT-X-TARGETDURATION:"@) {
        MediaScan {
            target_duration: float_text(trim(tag_rest(line, "#EXT-X-TARGETDURATION:"@))),
            ..st
        }
    } else if has_prefix(line, "#EXT-X-MEDIA-SEQUENCE:"@) {
        MediaScan {
            media_sequence: match u64_from_text(trim(tag_rest(line, "#EXT-X-MEDIA-SEQUENCE:"@))) {
                Some(v) => v,
                None => 0,
            },
            ..st
        }
    } else if has_prefix(line, "#EXT-X-DISCONTINUITY-SEQUENCE:"@) {
        MediaScan {
            discontinuity_sequence: match u64_from_text(
                trim(tag_rest(line, "#EXT-X-DISCONTINUITY-SEQUENCE:"@)),
            ) {
                Some(v) => v,
                None => 0,
            },
            ..st
        }
    } else if has_prefix(line, "#EXT-X-PLAYLIST-TYPE:"@) {
        MediaScan {
            playlist_type: Some(trim(tag_rest(line, "#EXT-X-PLAYLIST-TYPE:"@))),
            ..st
        }
    } else if line == "#EXT-X-ENDLIST"@ {
        MediaScan { ended: true, ..st }
    } else if line == "#EXT-X-DISCONTINUITY"@ {
        MediaScan { pending_discontinuity: true, ..st }
    } else if line == "#EXT-X-GAP"@ {
        MediaScan { pending_gap: true, ..st }
    } else if has_prefix(line, "#EXT-X-PROGRAM-DATE-TIME:"@) {
        MediaScan {
            pending_date_time: Some(trim(tag_rest(line, "#EXT-X-PROGRAM-DATE-TIME:"@))),
            ..st
        }
    } else if has_prefix(line, "#EXT-X-BYTERANGE:"@) {
        MediaScan {
            pending_byte_range: byte_range_from_text(trim(tag_rest(line, "#EXT-X-BYTERANGE:"@))),
            ..st
        }
    } else if has_prefix(line, "#EXT-X-MAP:"@) {
        let m = attributes_of(tag_rest(line, "#EXT-X-MAP:"@));
        match attr(m, "URI"@) {
            Some(uri) => MediaScan {
                current_map: Some(
                    MapInfoV {
                        uri: resolved_url(base, uri),
                        byte_range: match attr(m, "BYTERANGE"@) {
                            Some(b) => byte_range_from_text(b),
                            None => None,
                        },
                    },
                ),
                ..st
            },
            None => st,
        }
    } else if has_prefix(line, "#EXT-X-KEY:"@) {
        let m = attributes_of(tag_rest(line, "#EXT-X-KEY:"@));
        MediaScan { current_key: key_from_attrs(m), breaks: st.breaks || key_iv_breaks(m), ..st }
    } else if has_prefix(line, "#EXT-X-DATERANGE:"@) {
        match date_range_from_attrs(attributes_of(tag_rest(line, "#EXT-X-DATERANGE:"@))) {
            Some(d) => MediaScan { date_ranges: st.date_ranges.push(d), ..st },
            None => st,
        }
    } else if has_prefix(line, "#EXT-X-START:"@) {
        let m = attributes_of(tag_rest(line, "#EXT-X-START:"@));
        if m.contains_key("TIME-OFFSET"@) {
            MediaScan { start_offset: attr_float(m, "TIME-OFFSET"@), ..st }
        } else {
            st
        }
    } else if has_prefix(line, "#EXT-X-PART-INF:"@) {
        let m = attributes_of(tag_rest(line, "#EXT-X-PART-INF:"@));
        if m.contains_key("PART-TARGET"@) {
            MediaScan { part_inf: Some(attr_float(m, "PART-TARGET"@)), ..st }
        } else {
            st
        }
    } else if has_prefix(line, "#EXT-X-SERVER-CONTROL:"@) {
        let m = attributes_of(tag_rest(line, "#EXT-X-SERVER-CONTROL:"@));
        MediaScan {
            server_control: Some(
                ServerControlV {
                    can_skip_until: attr_float(m, "CAN-SKIP-UNTIL"@),
                    can_block_reload: attr_yes(m, "CAN-BLOCK-RELOAD"@),
                    hold_back: attr_float(m, "HOLD-BACK"@),
                    part_hold_back: attr_float(m, "PART-HOLD-BACK"@),
                },
            ),
            ..st
        }
    } else if !has_prefix(line, "#"@) && line.len() > 0 && st.pending_duration is Some {
        MediaScan {
            segments: st.segments.push(
                SegmentV {
                    sequence_number: st.media_sequence.wrapping_add(st.segments.len() as u64),
                    duration: st.pending_duration->0,
                    uri: resolved_url(base, line),
                    byte_range: st.pending_byte_range,
                    discontinuity: st.pending_discontinuity,
                    program_date_time: st.pending_date_time,
                    title: st.pending_title,
                    key: st.current_key,
                    map: st.current_map,
                    gap: st.pending_gap,
                },
            ),
            pending_duration: None,
            pending_title: None,
            pending_discontinuity: false,
            pending_date_time: None,
            pending_byte_range: None,
            pending_gap: false,
            ..st
        }
    } else {
        st
    }
}

/// Reading the lines `lines` of a media playlist at URL `base`.
pub open spec fn media_scan(lines: Seq<Seq<char>>, base: Seq<char>) -> MediaScan
    decreases lines.len(),
{
    if lines.len() == 0 {
        media_start()
    } else {
        media_step(media_scan(lines.drop_last(), base), lines.last(), base)
    }
}

/// The media playlist that `text`, fetched from `base`, holds; `None` when it
/// lacks the `#EXTM3U` header. It is VOD when its playlist type is `VOD`, or, with
/// no playlist type, when it has an end list marker.
pub open spec fn media_from_text(text: Seq<char>, base: Seq<char>) -> Option<MediaPlaylistV> {
    if !has_m3u_header(text) {
        None
    } else {
        let st = media_scan(text_lines(text), base);
        Some(
            MediaPlaylistV {
                target_duration: st.target_duration,
                media_sequence: st.media_sequence,
                discontinuity_sequence: st.discontinuity_sequence,
                is_vod: match st.playlist_type {
                    Some(t) => t == "VOD"@,
                    None => st.ended,
                },
                ended: st.ended,
                playlist_type: st.playlist_type,
                segments: st.segments,
                current_map: st.current_map,
                date_ranges: st.date_ranges,
                start_offset: st.start_offset,
                part_inf: st.part_inf,
                server_control: st.server_control,
            },
        )
    }
}

/// Reading `text` as a media playlist would slice a key's IV through a character.
pub open spec fn media_text_breaks(text: Seq<char>, base: Seq<char>) -> bool {
    has_m3u_header(text) && media_scan(text_lines(text), base).breaks
}

/// A line that is the `#EXT-X-DISCONTINUITY` tag (after trimming).
pub open spec fn discontinuity_tag(line: Seq<char>) -> bool {
    trim(line) == "#EXT-X-DISCONTINUITY"@
}

/// One line either adds no segment, or adds one that carries the pending
/// discontinuity and then clears it; a line that adds no segment keeps the
/// pending discontinuity, or sets it when it is the discontinuity tag.
#[verifier::spinoff_prover]
proof fn lemma_media_step_discontinuity(st: MediaScan, raw: Seq<char>, base: Seq<char>)
    ensures
        ({
            let t = media_step(st, raw, base);
            &&& (t.segments == st.segments || (t.segments.len() == st.segments.len() + 1
                && t.segments.take(st.segments.len() as int) == st.segments
                && t.segments.last().discontinuity == st.pending_discontinuity
                && !t.pending_discontinuity))
            &&& (t.segments == st.segments ==> (t.pending_discontinuity == st.pending_discontinuity
                || (t.pending_discontinuity && discontinuity_tag(raw))))
        }),
{
    let t = media_step(st, raw, base);
    if t.segments != st.segments {
        assert(t.segments.take(st.segments.len() as int) =~= st.segments);
    }
}

/// The discontinuity tag only sets the pending discontinuity.
#[verifier::spinoff_prover]
proof fn lemma_media_discontinuity_line(st: MediaScan, raw: Seq<char>, base: Seq<char>)
    requires
        discontinuity_tag(raw),
    ensures
        media_step(st, raw, base) == (MediaScan { pending_discontinuity: true, ..st }),
{
    reveal_strlit("#EXT-X-DISCONTINUITY");
    reveal_strlit("#EXTINF:");
    reveal_strlit("#EXT-X-TARGETDURATION:");
    reveal_strlit("#EXT-X-MEDIA-SEQUENCE:");
    reveal_strlit("#EXT-X-DISCONTINUITY-SEQUENCE:");
    reveal_strlit("#EXT-X-PLAYLIST-TYPE:");
    reveal_strlit("#EXT-X-ENDLIST");
    let line = trim(raw);
    assert(line == "#EXT-X-DISCONTINUITY"@);
    assert(!has_prefix(line, "#EXTINF:"@)) by {
        if has_prefix(line, "#EXTINF:"@) {
            assert(line.take(8)[4] == line[4]);
        }
    }
    assert(!has_prefix(line, "#EXT-X-TARGETDURATION:"@)) by {
        if has_prefix(line, "#EXT-X-TARGETDURATION:"@) {
            assert(line.take(22)[6] == line[6]);
        }
    }
    assert(!has_prefix(line, "#EXT-X-MEDIA-SEQUENCE:"@)) by {
        if has_prefix(line, "#EXT-X-MEDIA-SEQUENCE:"@) {
            assert(line.take(22)[6] == line[6]);
        }
    }
    assert(!has_prefix(line, "#EXT-X-DISCONTINUITY-SEQUENCE:"@));
    assert(!has_prefix(line, "#EXT-X-PLAYLIST-TYPE:"@)) by {
        if has_prefix(line, "#EXT-X-PLAYLIST-TYPE:"@) {
            assert(line.take(21)[6] == line[6]);
        }
    }
    assert(line != "#EXT-X-ENDLIST"@);
}

/// Reading lines without a discontinuity tag after some lines: the
/// segments read before stay as they were, and of the segments added only the
/// first can be a discontinuity, exactly when one was pending.
#[verifier::spinoff_prover]
#[verifier::rlimit(40)]
proof fn lemma_media_no_discontinuity_tags(
    lines: Seq<Seq<char>>,
    more: Seq<Seq<char>>,
    base: Seq<char>,
)
    requires
        forall|k: int| 0 <= k < more.len() ==> !discontinuity_tag(#[trigger] more[k]),
    ensures
        ({
            let a = media_scan(lines, base);
            let b = media_scan(lines + more, base);
            let n = a.segments.len();
            &&& n <= b.segments.len()
            &&& b.segments.take(n as int) == a.segments
            &&& forall|j: int| n <= j < b.segments.len() ==> (#[trigger] b.segments[j]).discontinuity
                == (j == n && a.pending_discontinuity)
            &&& b.pending_discontinuity == (a.pending_discontinuity && b.segments.len() == n)
        }),
    decreases more.len(),
{
    if more.len() == 0 {
        assert(lines + more =~= lines);
        assert(media_scan(lines, base).segments.take(media_scan(lines, base).segments.len() as int)
            =~= media_scan(lines, base).segments);
    } else {
        let m0 = more.drop_last();
        assert forall|k: int| 0 <= k < m0.len() implies !discontinuity_tag(#[trigger] m0[k]) by {
            assert(m0[k] == more[k]);
        }
        lemma_media_no_discontinuity_tags(lines, m0, base);
        assert((lines + more).drop_last() =~= lines + m0);
        assert((lines + more).last() == more.last());
        let a = media_scan(lines, base);
        let c = media_scan(lines + m0, base);
        let b = media_scan(lines + more, base);
        assert(b == media_step(c, more.last(), base));
        lemma_media_step_discontinuity(c, more.last(), base);
        assert(!discontinuity_tag(more.last()));
        let n = a.segments.len();
        if b.segments != c.segments {
            assert(b.segments.take(n as int) =~= c.segments.take(n as int));
            assert forall|j: int| n <= j < b.segments.len() implies (#[trigger] b.segments[j]).discontinuity
                == (j == n && a.pending_discontinuity) by {
                if j < c.segments.len() {
                    assert(b.segments[j] == b.segments.take(c.segments.len() as int)[j]);
                }
            }
        }
    }
}

/// After a segment is read, the segments read next up to the next
/// discontinuity tag are not discontinuities: only the segment right after a
/// discontinuity tag is marked, and the segments read before stay as they
/// were. From the start of a playlist, no segment before the first
/// discontinuity tag is marked.
pub proof fn law_discontinuity_marks_one_segment(
    lines: Seq<Seq<char>>,
    more: Seq<Seq<char>>,
    base: Seq<char>,
)
    requires
        lines.len() == 0 || media_scan(lines, base).segments.len() == media_scan(
            lines.drop_last(),
            base,
        ).segments.len() + 1,
        forall|k: int| 0 <= k < more.len() ==> !discontinuity_tag(#[trigger] more[k]),
    ensures
        ({
            let a = media_scan(lines, base);
            let b = media_scan(lines + more, base);
            &&& b.segments.take(a.segments.len() as int) == a.segments
            &&& forall|j: int|
                a.segments.len() <= j < b.segments.len() ==> !(#[trigger] b.segments[j]).discontinuity
        }),
{
    if lines.len() > 0 {
        lemma_media_step_discontinuity(media_scan(lines.drop_last(), base), lines.last(), base);
    }
    lemma_media_no_discontinuity_tags(lines, more, base);
}

/// The next segment read after a discontinuity tag is marked as one: after
/// the tag, lines that add no segment and then a line that adds one give a
/// segment that is a discontinuity.
pub proof fn law_discontinuity_tag_marks_next(
    lines: Seq<Seq<char>>,
    tag: Seq<char>,
    more: Seq<Seq<char>>,
    base: Seq<char>,
)
    requires
        discontinuity_tag(tag),
        media_scan(lines.push(tag) + more, base).segments.len() == media_scan(lines.push(tag), base).segments.len() + 1,
        forall|k: int| 0 <= k < more.len() ==> !discontinuity_tag(#[trigger] more[k]),
    ensures
        media_scan(lines.push(tag) + more, base).segments.last().discontinuity,
{
    let p = lines.push(tag);
    assert(p.drop_last() =~= lines);
    lemma_media_discontinuity_line(media_scan(lines, base), tag, base);
    lemma_media_no_discontinuity_tags(p, more, base);
    let a = media_scan(p, base);
    let b = media_scan(p + more, base);
    assert(b.segments[a.segments.len() as int] == b.segments.last());
}

/// Properties that a media segment takes from tags read before its URI, and
/// that are cleared once a segment is read.
#[derive(Clone, Copy, Debug, PartialEq, Eq, Structural)]
pub enum SegmentMark {
    /// `#EXT-X-GAP`
    Gap,
    /// `#EXT-X-BYTERANGE:`
    ByteRange,
    /// `#EXT-X-PROGRAM-DATE-TIME:`
    DateTime,
}

/// A line that is the tag giving the mark `k`.
pub open spec fn mark_tag(k: SegmentMark, line: Seq<char>) -> bool {
    match k {
        SegmentMark::Gap => trim(line) == "#EXT-X-GAP"@,
        SegmentMark::ByteRange => has_prefix(trim(line), "#EXT-X-BYTERANGE:"@),
        SegmentMark::DateTime => has_prefix(trim(line), "#EXT-X-PROGRAM-DATE-TIME:"@),
    }
}

/// Whether a segment carries the mark `k`: it is a gap, it has a byte range,
/// it has a program date-time.
pub open spec fn segment_marked(k: SegmentMark, seg: SegmentV) -> bool {
    match k {
        SegmentMark::Gap => seg.gap,
        SegmentMark::ByteRange => seg.byte_range is Some,
        SegmentMark::DateTime => seg.program_date_time is Some,
    }
}

/// Whether the mark `k` waits for the next segment.
spec fn mark_pending(k: SegmentMark, st: MediaScan) -> bool {
    match k {
        SegmentMark::Gap => st.pending_gap,
        SegmentMark::ByteRange => st.pending_byte_range is Some,
        SegmentMark::DateTime => st.pending_date_time is Some,
    }
}

/// One line either adds no segment, or adds one that carries the waiting
/// mark and then clears it; only the mark's tag can make it wait.
#[verifier::spinoff_prover]
proof fn lemma_media_step_mark(k: SegmentMark, st: MediaScan, raw: Seq<char>, base: Seq<char>)
    ensures
        ({
            let t = media_step(st, raw, base);
            &&& (t.segments == st.segments || (t.segments.len() == st.segments.len() + 1
                && t.segments.take(st.segments.len() as int) == st.segments
                && segment_marked(k, t.segments.last()) == mark_pending(k, st)
                && !mark_pending(k, t)))
            &&& (t.segments == st.segments && !mark_tag(k, raw) ==> mark_pending(k, t) == mark_pending(k, st))
        }),
{
    let t = media_step(st, raw, base);
    if t.segments != st.segments {
        assert(t.segments.take(st.segments.len() as int) =~= st.segments);
    }
}

/// Reading lines without the tag of mark `k` after some lines: the segments
/// read before stay as they were, and of the segments added only the first
/// can carry the mark, exactly when it was waiting.
#[verifier::spinoff_prover]
#[verifier::rlimit(40)]
proof fn lemma_media_no_mark_tags(
    k: SegmentMark,
    lines: Seq<Seq<char>>,
    more: Seq<Seq<char>>,
    base: Seq<char>,
)
    requires
        forall|i: int| 0 <= i < more.len() ==> !mark_tag(k, #[trigger] more[i]),
    ensures
        ({
            let a = media_scan(lines, base);
            let b = media_scan(lines + more, base);
            let n = a.segments.len();
            &&& n <= b.segments.len()
            &&& b.segments.take(n as int) == a.segments
            &&& forall|j: int| n <= j < b.segments.len() ==> segment_marked(k, #[trigger] b.segments[j])
                == (j == n && mark_pending(k, a))
            &&& mark_pending(k, b) == (mark_pending(k, a) && b.segments.len() == n)
        }),
    decreases more.len(),
{
    if more.len() == 0 {
        assert(lines + more =~= lines);
        assert(media_scan(lines, base).segments.take(media_scan(lines, base).segments.len() as int)
            =~= media_scan(lines, base).segments);
    } else {
        let m0 = more.drop_last();
        assert forall|i: int| 0 <= i < m0.len() implies !mark_tag(k, #[trigger] m0[i]) by {
            assert(m0[i] == more[i]);
        }
        lemma_media_no_mark_tags(k, lines, m0, base);
        assert((lines + more).drop_last() =~= lines + m0);
        assert((lines + more).last() == more.last());
        let a = media_scan(lines, base);
        let c = media_scan(lines + m0, base);
        let b = media_scan(lines + more, base);
        assert(b == media_step(c, more.last(), base));
        lemma_media_step_mark(k, c, more.last(), base);
        assert(!mark_tag(k, more.last()));
        let n = a.segments.len();
        if b.segments != c.segments {
            assert(b.segments.take(n as int) =~= c.segments.take(n as int));
            assert forall|j: int| n <= j < b.segments.len() implies segment_marked(k, #[trigger] b.segments[j])
                == (j == n && mark_pending(k, a)) by {
                if j < c.segments.len() {
                    assert(b.segments[j] == b.segments.take(c.segments.len() as int)[j]);
                }
            }
        }
    }
}

/// After a segment is read, the segments read next up to the next tag of a
/// mark do not carry it: a gap, a byte range or a program date-time applies
/// only to the segment right after its tag, and the segments read before
/// stay as they were. From the start of a playlist, no segment before the
/// first such tag carries the mark.
pub proof fn law_segment_marks_apply_once(
    k: SegmentMark,
    lines: Seq<Seq<char>>,
    more: Seq<Seq<char>>,
    base: Seq<char>,
)
    requires
        lines.len() == 0 || media_scan(lines, base).segments.len() == media_scan(
            lines.drop_last(),
            base,
        ).segments.len() + 1,
        forall|i: int| 0 <= i < more.len() ==> !mark_tag(k, #[trigger] more[i]),
    ensures
        ({
            let a = media_scan(lines, base);
            let b = media_scan(lines + more, base);
            &&& b.segments.take(a.segments.len() as int) == a.segments
            &&& forall|j: int|
                a.segments.len() <= j < b.segments.len() ==> !segment_marked(k, #[trigger] b.segments[j])
        }),
{
    if lines.len() > 0 {
        lemma_media_step_mark(k, media_scan(lines.drop_last(), base), lines.last(), base);
    }
    lemma_media_no_mark_tags(k, lines, more, base);
}

/// `breaks` only ever turns true as more lines are read.
pub proof fn lemma_media_breaks_monotone(lines: Seq<Seq<char>>, base: Seq<char>, i: int)
    requires
        0 <= i <= lines.len(),
        media_scan(lines.take(i), base).breaks,
    ensures
        media_scan(lines, base).breaks,
    decreases lines.len() - i,
{
    if i < lines.len() {
        assert(lines.take(i + 1).drop_last() =~= lines.take(i));
        lemma_media_breaks_monotone(lines, base, i + 1);
    } else {
        assert(lines.take(i) =~= lines);
    }
}

/// A copy of a list of date ranges.
pub fn copy_date_ranges(v: &Vec<DateRangeTag>) -> (r: Vec<DateRangeTag>)
    ensures
        date_range_views(r@) == date_range_views(v@),
{
    let mut out: Vec<DateRangeTag> = Vec::new();
    let mut i: usize = 0;
    while i < v.len()
        invariant
            i <= v@.len(),
            date_range_views(out@) == date_range_views(v@).take(i as int),
        decreases v.len() - i,
    {
        let ghost before = date_range_views(out@);
        out.push(v[i].copied());
        assert(date_range_views(out@) =~= before.push(v@[i as int]@));
        assert(date_range_views(v@).take(i + 1) =~= date_range_views(v@).take(i as int).push(
            v@[i as int]@,
        ));
        i += 1;
    }
    assert(date_range_views(v@).take(i as int) =~= date_range_views(v@));
    out
}

/// A copy of a byte vector.
fn copy_bytes(v: &Vec<u8>) -> (r: Vec<u8>)
    ensures
        r@ == v@,
{
    let mut out: Vec<u8> = Vec::new();
    let mut i: usize = 0;
    while i < v.len()
        invariant
            i <= v@.len(),
            out@ == v@.take(i as int),
        decreases v.len() - i,
    {
        out.push(v[i]);
        i += 1;
        assert(out@ =~= v@.take(i as int));
    }
    assert(v@.take(i as int) =~= v@);
    out
}

/// A copy of an optional string.
fn copy_opt_string(s: &Option<String>) -> (r: Option<String>)
    ensures
        r.deep_view() == s.deep_view(),
{
    match s {
        Some(v) => Some(v.clone()),
        None => None,
    }
}

/// A copy of optional key information.
fn copy_key(k: &Option<KeyInfo>) -> (r: Option<KeyInfo>)
    ensures
        opt_key_view(r) == opt_key_view(*k),
{
    match k {
        Some(k) => {
            let iv = match &k.iv {
                Some(v) => Some(copy_bytes(v)),
                None => None,
            };
            assert(iv.deep_view() == k.iv.deep_view()) by {
                match &k.iv {
                    Some(v) => {
                        assert(iv.unwrap().deep_view() =~= v.deep_view());
                    },
                    None => {},
                }
            }
            Some(
                KeyInfo {
                    method: k.method,
                    uri: copy_opt_string(&k.uri),
                    iv,
                    key_format: copy_opt_string(&k.key_format),
                    key_format_versions: copy_opt_string(&k.key_format_versions),
                },
            )
        },
        None => None,
    }
}

/// A copy of optional init segment information.
fn copy_map(m: &Option<MapInfo>) -> (r: Option<MapInfo>)
    ensures
        opt_map_view(r) == opt_map_view(*m),
{
    match m {
        Some(m) => Some(MapInfo { uri: m.uri.clone(), byte_range: m.byte_range }),
        None => None,
    }
}

/// The attribute's text when it reads as a floating-point number.
fn float_attr(attrs: &Attributes, k: &str) -> (r: Option<String>)
    ensures
        r.deep_view() == attr_float(attrs@, k@),
{
    match attrs.get(k) {
        Some(v) => if is_float_literal(v) {
            Some(string_of(v))
        } else {
            None
        },
        None => None,
    }
}

/// The text when it reads as a floating-point number.
fn float_text_of(t: &[char]) -> (r: Option<String>)
    ensures
        r.deep_view() == float_text(t@),
{
    if is_float_literal(t) {
        Some(string_of(t))
    } else {
        None
    }
}

/// The state of reading a media playlist.
struct MediaReader {
    target_duration: Option<String>,
    media_sequence: u64,
    discontinuity_sequence: u64,
    playlist_type: Option<String>,
    ended: bool,
    segments: Vec<Segment>,
    date_ranges: Vec<DateRangeTag>,
    current_map: Option<MapInfo>,
    current_key: Option<KeyInfo>,
    start_offset: Option<String>,
    part_inf: Option<PartInfo>,
    server_control: Option<ServerControl>,
    pending_duration: Option<String>,
    pending_title: Option<String>,
    pending_discontinuity: bool,
    pending_date_time: Option<String>,
    pending_byte_range: Option<(u64, u64)>,
    pending_gap: bool,
}

impl MediaReader {
    /// What has been gathered, as plain values.
    spec fn scan(&self) -> MediaScan {
        MediaScan {
            target_duration: self.target_duration.deep_view(),
            media_sequence: self.media_sequence,
            discontinuity_sequence: self.discontinuity_sequence,
            playlist_type: self.playlist_type.deep_view(),
            ended: self.ended,
            segments: segment_views(self.segments@),
            date_ranges: date_range_views(self.date_ranges@),
            current_map: opt_map_view(self.current_map),
            current_key: opt_key_view(self.current_key),
            start_offset: self.start_offset.deep_view(),
            part_inf: match self.part_inf {
                Some(p) => Some(p.part_target.deep_view()),
                None => None,
            },
            server_control: match self.server_control {
                Some(c) => Some(c@),
                None => None,
            },
            pending_duration: self.pending_duration.deep_view(),
            pending_title: self.pending_title.deep_view(),
            pending_discontinuity: self.pending_discontinuity,
            pending_date_time: self.pending_date_time.deep_view(),
            pending_byte_range: self.pending_byte_range,
            pending_gap: self.pending_gap,
            breaks: false,
        }
    }

    /// Reads one line.
    fn read_line(&mut self, raw: &[char], base: &[char])
        requires
            !media_step(old(self).scan(), raw@, base@).breaks,
        ensures
            final(self).scan() == media_step(old(self).scan(), raw@, base@),
    {
        let line = trim_chars(raw);
        proof {
            reveal_strlit("#EXTINF:");
            reveal_strlit("#EXT-X-TARGETDURATION:");
            reveal_strlit("#EXT-X-MEDIA-SEQUENCE:");
            reveal_strlit("#EXT-X-DISCONTINUITY-SEQUENCE:");
            reveal_strlit("#EXT-X-PLAYLIST-TYPE:");
            reveal_strlit("#EXT-X-PROGRAM-DATE-TIME:");
            reveal_strlit("#EXT-X-BYTERANGE:");
            reveal_strlit("#EXT-X-MAP:");
            reveal_strlit("#EXT-X-KEY:");
            reveal_strlit("#EXT-X-DATERANGE:");
            reveal_strlit("#EXT-X-START:");
            reveal_strlit("#EXT-X-PART-INF:");
            reveal_strlit("#EXT-X-SERVER-CONTROL:");
            reveal_strlit("#");
        }
        if let Some(rest) = strip_prefix_str(line, "#EXTINF:") {
            let n = rest.len();
            let (dur, title): (&[char], Option<&[char]>) = match find_char(rest, ',') {
                Some(i) => (&rest[0..i], Some(&rest[i + 1..n])),
                None => (rest, None),
            };
            assert(dur@ =~= before(rest@, ','));
            self.pending_duration = float_text_of(trim_chars(dur));
            self.pending_title = match title {
                Some(t) => {
                    assert(t@ =~= after(rest@, ','));
                    Some(string_of(trim_chars(t)))
                },
                None => None,
            };
            return;
        }
        if let Some(rest) = strip_prefix_str(line, "#EXT-X-TARGETDURATION:") {
            self.target_duration = float_text_of(trim_chars(rest));
            return;
        }
        if let Some(rest) = strip_prefix_str(line, "#EXT-X-MEDIA-SEQUENCE:") {
            self.media_sequence = match parse_u64(trim_chars(rest)) {
                Some(v) => v,
                None => 0,
            };
            return;
        }
        if let Some(rest) = strip_prefix_str(line, "#EXT-X-DISCONTINUITY-SEQUENCE:") {
            self.discontinuity_sequence = match parse_u64(trim_chars(rest)) {
                Some(v) => v,
                None => 0,
            };
            return;
        }
        if let Some(rest) = strip_prefix_str(line, "#EXT-X-PLAYLIST-TYPE:") {
            self.playlist_type = Some(string_of(trim_chars(rest)));
            return;
        }
        if eq_str(line, "#EXT-X-ENDLIST") {
            self.ended = true;
            return;
        }
        if eq_str(line, "#EXT-X-DISCONTINUITY") {
            self.pending_discontinuity = true;
            return;
        }
        if eq_str(line, "#EXT-X-GAP") {
            self.pending_gap = true;
            return;
        }
        if let Some(rest) = strip_prefix_str(line, "#EXT-X-PROGRAM-DATE-TIME:") {
            self.pending_date_time = Some(string_of(trim_chars(rest)));
            return;
        }
        if let Some(rest) = strip_prefix_str(line, "#EXT-X-BYTERANGE:") {
            self.pending_byte_range = parse_byte_range(trim_chars(rest));
            return;
        }
        if let Some(rest) = strip_prefix_str(line, "#EXT-X-MAP:") {
            let attrs = Attributes::parse(rest);
            match attrs.get("URI") {
                Some(uri) => {
                    let url = resolve_url_chars(base, uri);
                    let byte_range = match attrs.get("BYTERANGE") {
                        Some(b) => parse_byte_range(b),
                        None => None,
                    };
                    self.current_map = Some(MapInfo { uri: string_of(url.as_slice()), byte_range });
                },
                None => {},
            }
            return;
        }
        if let Some(rest) = strip_prefix_str(line, "#EXT-X-KEY:") {
            let attrs = Attributes::parse(rest);
            self.current_key = parse_key_info(&attrs);
            return;
        }
        if let Some(rest) = strip_prefix_str(line, "#EXT-X-DATERANGE:") {
            let attrs = Attributes::parse(rest);
            match parse_date_range(&attrs) {
                Some(d) => {
                    let ghost old = self.date_ranges@;
                    self.date_ranges.push(d);
                    assert(date_range_views(self.date_ranges@) =~= date_range_views(old).push(d@));
                },
                None => {},
            }
            return;
        }
        if let Some(rest) = strip_prefix_str(line, "#EXT-X-START:") {
            let attrs = Attributes::parse(rest);
            if attrs.get("TIME-OFFSET").is_some() {
                self.start_offset = float_attr(&attrs, "TIME-OFFSET");
            }
            return;
        }
        if let Some(rest) = strip_prefix_str(line, "#EXT-X-PART-INF:") {
            let attrs = Attributes::parse(rest);
            if attrs.get("PART-TARGET").is_some() {
                self.part_inf = Some(PartInfo { part_target: float_attr(&attrs, "PART-TARGET") });
            }
            return;
        }
        if let Some(rest) = strip_prefix_str(line, "#EXT-X-SERVER-CONTROL:") {
            let attrs = Attributes::parse(rest);
            let can_block_reload = match attrs.get("CAN-BLOCK-RELOAD") {
                Some(v) => crate::text::eq_ignore_case_str(v, "YES"),
                None => false,
            };
            self.server_control = Some(
                ServerControl {
                    can_skip_until: float_attr(&attrs, "CAN-SKIP-UNTIL"),
                    can_block_reload,
                    hold_back: float_attr(&attrs, "HOLD-BACK"),
                    part_hold_back: float_attr(&attrs, "PART-HOLD-BACK"),
                },
            );
            return;
        }
        if !starts_with_str(line, "#") && line.len() > 0 {
            if let Some(duration) = self.pending_duration.take() {
                let url = resolve_url_chars(base, line);
                let sn = self.media_sequence.wrapping_add(self.segments.len() as u64);
                let seg = Segment {
                    sequence_number: sn,
                    duration,
                    uri: string_of(url.as_slice()),
                    byte_range: self.pending_byte_range.take(),
                    discontinuity: self.pending_discontinuity,
                    program_date_time: self.pending_date_time.take(),
                    title: self.pending_title.take(),
                    key: copy_key(&self.current_key),
                    map: copy_map(&self.current_map),
                    gap: self.pending_gap,
                };
                let ghost old = self.segments@;
                self.segments.push(seg);
                assert(segment_views(self.segments@) =~= segment_views(old).push(seg@));
                self.pending_discontinuity = false;
                self.pending_gap = false;
            }
        }
    }
}

/// A `#EXT-X-KEY` line is none of the tags that a media playlist reads before it.
proof fn lemma_key_line(line: Seq<char>)
    requires
        has_prefix(line, "#EXT-X-KEY:"@),
    ensures
        !has_prefix(line, "#EXTINF:"@),
        !has_prefix(line, "#EXT-X-TARGETDURATION:"@),
        !has_prefix(line, "#EXT-X-MEDIA-SEQUENCE:"@),
        !has_prefix(line, "#EXT-X-DISCONTINUITY-SEQUENCE:"@),
        !has_prefix(line, "#EXT-X-PLAYLIST-TYPE:"@),
        !has_prefix(line, "#EXT-X-PROGRAM-DATE-TIME:"@),
        !has_prefix(line, "#EXT-X-BYTERANGE:"@),
        !has_prefix(line, "#EXT-X-MAP:"@),
        line != "#EXT-X-ENDLIST"@,
        line != "#EXT-X-DISCONTINUITY"@,
        line != "#EXT-X-GAP"@,
{
    reveal_strlit("#EXT-X-KEY:");
    reveal_strlit("#EXTINF:");
    reveal_strlit("#EXT-X-TARGETDURATION:");
    reveal_strlit("#EXT-X-MEDIA-SEQUENCE:");
    reveal_strlit("#EXT-X-DISCONTINUITY-SEQUENCE:");
    reveal_strlit("#EXT-X-PLAYLIST-TYPE:");
    reveal_strlit("#EXT-X-PROGRAM-DATE-TIME:");
    reveal_strlit("#EXT-X-BYTERANGE:");
    reveal_strlit("#EXT-X-MAP:");
    reveal_strlit("#EXT-X-ENDLIST");
    reveal_strlit("#EXT-X-DISCONTINUITY");
    reveal_strlit("#EXT-X-GAP");
    assert(line[4] == line.take(11)[4]);
    assert(line[7] == line.take(11)[7]);
    if has_prefix(line, "#EXTINF:"@) {
        assert(line[4] == line.take(8)[4]);
    }
    if has_prefix(line, "#EXT-X-TARGETDURATION:"@) {
        assert(line[7] == line.take(22)[7]);
    }
    if has_prefix(line, "#EXT-X-MEDIA-SEQUENCE:"@) {
        assert(line[7] == line.take(22)[7]);
    }
    if has_prefix(line, "#EXT-X-DISCONTINUITY-SEQUENCE:"@) {
        assert(line[7] == line.take(30)[7]);
    }
    if has_prefix(line, "#EXT-X-PLAYLIST-TYPE:"@) {
        assert(line[7] == line.take(21)[7]);
    }
    if has_prefix(line, "#EXT-X-PROGRAM-DATE-TIME:"@) {
        assert(line[7] == line.take(25)[7]);
    }
    if has_prefix(line, "#EXT-X-BYTERANGE:"@) {
        assert(line[7] == line.take(17)[7]);
    }
    if has_prefix(line, "#EXT-X-MAP:"@) {
        assert(line[7] == line.take(11)[7]);
    }
}

/// Whether reading `text` as a media playlist would slice a key's IV through a
/// character (see [`MediaPlaylist::parse`]).
pub fn media_text_would_break(text: &str, base_url: &str) -> (r: bool)
    ensures
        r == media_text_breaks(text@, base_url@),
{
    let chars = chars_of(text);
    let lines = split_lines(chars.as_slice());
    let ghost ls = lines.deep_view();
    if lines.len() == 0 || !starts_with_str(lines[0].as_slice(), "#EXTM3U") {
        proof {
            if lines.len() > 0 {
                assert(ls[0] == lines@[0]@);
            }
        }
        return false;
    }
    assert(ls[0] == lines@[0]@);
    let mut breaks = false;
    let mut i: usize = 0;
    assert(ls.take(0) =~= Seq::<Seq<char>>::empty());
    while i < lines.len()
        invariant
            ls == lines.deep_view(),
            ls == text_lines(text@),
            i <= ls.len(),
            breaks == media_scan(ls.take(i as int), base_url@).breaks,
        decreases lines.len() - i,
    {
        proof {
            assert(ls.take(i + 1).drop_last() =~= ls.take(i as int));
            assert(ls.take(i + 1).last() == lines@[i as int]@);
        }
        let line = trim_chars(lines[i].as_slice());
        match strip_prefix_str(line, "#EXT-X-KEY:") {
            Some(rest) => {
                proof {
                    lemma_key_line(line@);
                }
                let attrs = Attributes::parse(rest);
                if key_iv_would_break(&attrs) {
                    breaks = true;
                }
            },
            None => {},
        }
        i += 1;
    }
    assert(ls.take(i as int) =~= ls);
    breaks
}

impl MediaPlaylist {
    /// Parses a media playlist from its text, fetched from `base_url`.
    ///
    /// Fails with a manifest parsing error when the text lacks the `#EXTM3U` header.
    pub fn parse(text: &str, base_url: &str) -> (r: Result<Self, HlsError>)
        requires
            !media_text_breaks(text@, base_url@),
        ensures
            match r {
                Ok(p) => media_from_text(text@, base_url@) == Some(p@),
                Err(e) => media_from_text(text@, base_url@) is None && e.plain(
                    ErrorCategory::Manifest,
                    ErrorCode::ManifestParsingError,
                    "Invalid M3U8 playlist - missing #EXTM3U tag"@,
                ),
            },
    {
        let chars = chars_of(text);
        let base = chars_of(base_url);
        let lines = split_lines(chars.as_slice());
        let ghost ls = lines.deep_view();
        if lines.len() == 0 || !starts_with_str(lines[0].as_slice(), "#EXTM3U") {
            proof {
                if lines.len() > 0 {
                    assert(ls[0] == lines@[0]@);
                }
            }
            return Err(
                HlsError::manifest(
                    ErrorCode::ManifestParsingError,
                    "Invalid M3U8 playlist - missing #EXTM3U tag",
                ),
            );
        }
        assert(ls[0] == lines@[0]@);
        let mut rd = MediaReader {
            target_duration: None,
            media_sequence: 0,
            discontinuity_sequence: 0,
            playlist_type: None,
            ended: false,
            segments: Vec::new(),
            date_ranges: Vec::new(),
            current_map: None,
            current_key: None,
            start_offset: None,
            part_inf: None,
            server_control: None,
            pending_duration: None,
            pending_title: None,
            pending_discontinuity: false,
            pending_date_time: None,
            pending_byte_range: None,
            pending_gap: false,
        };
        assert(ls.take(0) =~= Seq::<Seq<char>>::empty());
        assert(rd.scan() =~= media_scan(ls.take(0), base@));
        let mut i: usize = 0;
        while i < lines.len()
            invariant
                ls == lines.deep_view(),
                ls == text_lines(text@),
                base@ == base_url@,
                i <= ls.len(),
                !media_scan(ls, base@).breaks,
                rd.scan() == (MediaScan { breaks: false, ..media_scan(ls.take(i as int), base@) }),
                !media_scan(ls.take(i as int), base@).breaks,
            decreases lines.len() - i,
        {
            proof {
                assert(ls.take(i + 1).drop_last() =~= ls.take(i as int));
                assert(ls.take(i + 1).last() == lines@[i as int]@);
                if media_scan(ls.take(i + 1), base@).breaks {
                    lemma_media_breaks_monotone(ls, base@, i + 1);
                }
                assert(rd.scan() == media_scan(ls.take(i as int), base@));
            }
            rd.read_line(lines[i].as_slice(), base.as_slice());
            i += 1;
        }
        assert(ls.take(i as int) =~= ls);
        let is_vod = match &rd.playlist_type {
            Some(t) => {
                let tc = chars_of(t.as_str());
                eq_str(tc.as_slice(), "VOD")
            },
            None => rd.ended,
        };
        MediaPlaylist::finish(rd, is_vod)
    }

    /// Assembles a playlist from what reading gathered.
    fn finish(rd: MediaReader, is_vod: bool) -> (r: Result<Self, HlsError>)
        ensures
            r matches Ok(p) && p@ == (MediaPlaylistV {
                target_duration: rd.scan().target_duration,
                media_sequence: rd.scan().media_sequence,
                discontinuity_sequence: rd.scan().discontinuity_sequence,
                is_vod,
                ended: rd.scan().ended,
                playlist_type: rd.scan().playlist_type,
                segments: rd.scan().segments,
                current_map: rd.scan().current_map,
                date_ranges: rd.scan().date_ranges,
                start_offset: rd.scan().start_offset,
                part_inf: rd.scan().part_inf,
                server_control: rd.scan().server_control,
            }),
    {
        Ok(
            MediaPlaylist {
                target_duration: rd.target_duration,
                media_sequence: rd.media_sequence,
                discontinuity_sequence: rd.discontinuity_sequence,
                is_vod,
                ended: rd.ended,
                playlist_type: rd.playlist_type,
                segments: rd.segments,
                current_map: rd.current_map,
                date_ranges: rd.date_ranges,
                start_offset: rd.start_offset,
                part_inf: rd.part_inf,
                server_control: rd.server_control,
            },
        )
    }

    /// The first segment with sequence number `sn`.
    pub fn segment_by_sn(&self, sn: u64) -> (r: Option<&Segment>)
        ensures
            match r {
                Some(s) => exists|i: int|
                    0 <= i < self.segments@.len() && self.segments@[i] == *s && s.sequence_number == sn
                        && forall|j: int| 0 <= j < i ==> self.segments@[j].sequence_number != sn,
                None => forall|j: int| 0 <= j < self.segments@.len() ==> self.segments@[j].sequence_number != sn,
            },
    {
        let mut i: usize = 0;
        while i < self.segments.len()
            invariant
                i <= self.segments@.len(),
                forall|j: int| 0 <= j < i ==> self.segments@[j].sequence_number != sn,
            decreases self.segments.len() - i,
        {
            if self.segments[i].sequence_number == sn {
                return Some(&self.segments[i]);
            }
            i += 1;
        }
        None
    }

    /// Whether some segment is encrypted (has a key whose method is not `NONE`).
    pub fn is_encrypted(&self) -> (r: bool)
        ensures
            r == exists|i: int|
                0 <= i < self.segments@.len() && match #[trigger] self.segments@[i].key {
                    Some(k) => k.method != EncryptionMethod::NoEncryption,
                    None => false,
                },
    {
        let mut i: usize = 0;
        while i < self.segments.len()
            invariant
                i <= self.segments@.len(),
                forall|j: int|
                    0 <= j < i ==> match #[trigger] self.segments@[j].key {
                        Some(k) => k.method == EncryptionMethod::NoEncryption,
                        None => true,
                    },
            decreases self.segments.len() - i,
        {
            match &self.segments[i].key {
                Some(k) => {
                    if k.method != EncryptionMethod::NoEncryption {
                        return true;
                    }
                },
                None => {},
            }
            i += 1;
        }
        false
    }
}

} // verus!
