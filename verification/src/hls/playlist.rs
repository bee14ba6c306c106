//! Items of M3U8 playlists (RFC 8216): resolutions, quality levels, renditions,
//! keys, byte ranges, date ranges and URL resolution.
use crate::attributes::{after, before, Attributes};
use crate::hex::{hex_from_text, hex_strict_breaks, parse_hex_string};
use crate::std_text::{to_lower, to_upper, unicode_lower, unicode_upper};
use crate::text::{
    all_digits, chars_of, contains_seq, decimal, decimal_chars, eq_ignore_ascii_case,
    eq_ignore_case_str, eq_str, find_char, find_seq, find_str, first_at, has_prefix, index_of,
    is_float_literal, float_literal, lacks, last_index_of, lemma_index_of_found, parse_u32,
    parse_u64, push_chars, push_str, rfind_char, split_char, split_on, starts_with_str,
    string_of, strip_all_prefixes, strip_all_prefixes_str, trim, trim_char, trim_chars,
    trim_end_char, trim_end_matches_char, trim_matches_char, u32_from_text, u64_from_text,
    contains_str, is_digit, lemma_decimal_reads_back, lemma_index_of,
};
use vstd::prelude::*;

verus! {

// ---------------------------------------------------------------------------
// Attribute access
// ---------------------------------------------------------------------------

/// The value of attribute `k` in `m`, if set.
pub open spec fn attr(m: Map<Seq<char>, Seq<char>>, k: Seq<char>) -> Option<Seq<char>> {
    if m.contains_key(k) {
        Some(m[k])
    } else {
        None
    }
}

/// The value of attribute `k` read as a `u64`, if set and readable.
pub open spec fn attr_u64(m: Map<Seq<char>, Seq<char>>, k: Seq<char>) -> Option<u64> {
    match attr(m, k) {
        Some(v) => u64_from_text(v),
        None => None,
    }
}

/// The text of attribute `k` when it reads as a floating-point number.
pub open spec fn attr_float(m: Map<Seq<char>, Seq<char>>, k: Seq<char>) -> Option<Seq<char>> {
    match attr(m, k) {
        Some(v) => if float_literal(v) {
            Some(v)
        } else {
            None
        },
        None => None,
    }
}

/// Whether attribute `k` is set to `YES` (in any ASCII case).
pub open spec fn attr_yes(m: Map<Seq<char>, Seq<char>>, k: Seq<char>) -> bool {
    match attr(m, k) {
        Some(v) => eq_ignore_ascii_case(v, "YES"@),
        None => false,
    }
}

/// The value of attribute `k` with surrounding quotes removed.
pub open spec fn attr_unquoted(m: Map<Seq<char>, Seq<char>>, k: Seq<char>) -> Option<Seq<char>> {
    match attr(m, k) {
        Some(v) => Some(trim_char(v, '"')),
        None => None,
    }
}

/// `Some` text as a `String`.
fn opt_string(v: Option<&[char]>) -> (r: Option<String>)
    ensures
        r.deep_view() == (match v {
            Some(s) => Some(s@),
            None => None,
        }),
{
    match v {
        Some(s) => Some(string_of(s)),
        None => None,
    }
}

/// The attribute's text when it reads as a floating-point number.
fn get_float_text(attrs: &Attributes, k: &str) -> (r: Option<String>)
    ensures
        r.deep_view() == attr_float(attrs@, k@),
{
    match attrs.get(k) {
        Some(v) => if is_float_literal(v) {
            Some(string_of(v))
        } else {
            None
        },
        None => None,
    }
}

/// The attribute's value read as a `u64`.
fn get_u64(attrs: &Attributes, k: &str) -> (r: Option<u64>)
    ensures
        r == attr_u64(attrs@, k@),
{
    match attrs.get(k) {
        Some(v) => parse_u64(v),
        None => None,
    }
}

/// Whether the attribute is `YES`.
fn get_yes(attrs: &Attributes, k: &str) -> (r: bool)
    ensures
        r == attr_yes(attrs@, k@),
{
    match attrs.get(k) {
        Some(v) => eq_ignore_case_str(v, "YES"),
        None => false,
    }
}

/// The attribute's value without surrounding quotes.
fn get_unquoted(attrs: &Attributes, k: &str) -> (r: Option<String>)
    ensures
        r.deep_view() == attr_unquoted(attrs@, k@),
{
    match attrs.get(k) {
        Some(v) => Some(string_of(trim_matches_char(v, '"'))),
        None => None,
    }
}

// ---------------------------------------------------------------------------
// Resolution
// ---------------------------------------------------------------------------

/// Resolution of a video level.
#[derive(Clone, Copy, Debug, PartialEq, Eq, Structural)]
pub struct Resolution {
    pub width: u32,
    pub height: u32,
}

/// The resolution written as `WIDTHxHEIGHT`: exactly one `x`, with an unsigned
/// 32-bit integer on each side.
pub open spec fn resolution_from_text(s: Seq<char>) -> Option<Resolution> {
    if lacks(s, 'x') {
        None
    } else {
        let i = index_of(s, 'x');
        let w = s.take(i);
        let h = s.skip(i + 1);
        if !lacks(h, 'x') {
            None
        } else {
            match (u32_from_text(w), u32_from_text(h)) {
                (Some(a), Some(b)) => Some(Resolution { width: a, height: b }),
                _ => None,
            }
        }
    }
}

/// A resolution written out as `WIDTHxHEIGHT` in decimal reads back as
/// itself.
pub proof fn law_resolution_round_trip(width: u32, height: u32)
    ensures
        resolution_from_text(decimal(width as nat) + "x"@ + decimal(height as nat)) == Some(
            Resolution { width, height },
        ),
{
    reveal_strlit("x");
    let dw = decimal(width as nat);
    let dh = decimal(height as nat);
    lemma_decimal_reads_back(width as nat);
    lemma_decimal_reads_back(height as nat);
    let s = dw + "x"@ + dh;
    let i = dw.len() as int;
    assert(s[i] == 'x');
    assert forall|j: int| 0 <= j < i implies s[j] != 'x' by {
        assert(s[j] == dw[j]);
        assert(is_digit(dw[j]));
    }
    assert(first_at(s, 'x', i));
    lemma_index_of(s, 'x', i);
    assert(s.take(i) =~= dw);
    assert(s.skip(i + 1) =~= dh);
    assert forall|j: int| 0 <= j < dh.len() implies dh[j] != 'x' by {
        assert(is_digit(dh[j]));
    }
    assert(!lacks(s, 'x'));
}

impl Resolution {
    pub fn new(width: u32, height: u32) -> (r: Self)
        ensures
            r.width == width,
            r.height == height,
    {
        Resolution { width, height }
    }

    /// Parses a resolution from `WIDTHxHEIGHT` text.
    pub fn parse(s: &str) -> (r: Option<Self>)
        ensures
            r == resolution_from_text(s@),
    {
        let cs = chars_of(s);
        Self::parse_chars(cs.as_slice())
    }

    /// Parses a resolution from `WIDTHxHEIGHT` characters.
    pub fn parse_chars(s: &[char]) -> (r: Option<Self>)
        ensures
            r == resolution_from_text(s@),
    {
        let n = s.len();
        match find_char(s, 'x') {
            None => None,
            Some(i) => {
                let w = &s[0..i];
                let h = &s[i + 1..n];
                assert(w@ =~= s@.take(i as int));
                assert(h@ =~= s@.skip(i + 1));
                if find_char(h, 'x').is_some() {
                    return None;
                }
                match (parse_u32(w), parse_u32(h)) {
                    (Some(a), Some(b)) => Some(Resolution { width: a, height: b }),
                    _ => None,
                }
            },
        }
    }

    /// The pixel count.
    pub fn pixels(&self) -> (r: u64)
        ensures
            r == self.width * self.height,
    {
        assert(self.width * self.height <= u32::MAX * u32::MAX) by (nonlinear_arith)
            requires
                self.width <= u32::MAX,
                self.height <= u32::MAX,
        ;
        self.width as u64 * self.height as u64
    }
}

// ---------------------------------------------------------------------------
// Codecs and HDCP
// ---------------------------------------------------------------------------

/// The rank of an upper-cased HDCP level: `NONE` < `TYPE-0` < `TYPE-1`;
/// anything else ranks as `NONE`.
pub open spec fn hdcp_rank_upper(u: Seq<char>) -> u32 {
    if u == "NONE"@ {
        0
    } else if u == "TYPE-0"@ {
        1
    } else if u == "TYPE-1"@ {
        2
    } else {
        0
    }
}

/// The rank of an HDCP level, compared after Unicode upper-casing.
pub open spec fn hdcp_rank(level: Seq<char>) -> u32 {
    hdcp_rank_upper(unicode_upper(level))
}

/// The rank of an HDCP level that is already upper-cased.
pub fn hdcp_rank_of_upper(u: &[char]) -> (r: u32)
    ensures
        r == hdcp_rank_upper(u@),
{
    if eq_str(u, "NONE") {
        0
    } else if eq_str(u, "TYPE-0") {
        1
    } else if eq_str(u, "TYPE-1") {
        2
    } else {
        0
    }
}

/// The rank of an HDCP level.
pub fn hdcp_value(level: &[char]) -> (r: u32)
    ensures
        r == hdcp_rank(level@),
{
    let u = to_upper(level);
    hdcp_rank_of_upper(u.as_slice())
}

/// A lower-cased codec string names a video codec: it starts with `avc`,
/// `hvc`, `hev`, `vp` or `av1`.
pub open spec fn video_codec_lower(l: Seq<char>) -> bool {
    has_prefix(l, "avc"@) || has_prefix(l, "hvc"@) || has_prefix(l, "hev"@) || has_prefix(l, "vp"@)
        || has_prefix(l, "av1"@)
}

/// A lower-cased codec string names an audio codec: it starts with `mp4a`,
/// `ac-`, `ec-`, `opus` or `flac`.
pub open spec fn audio_codec_lower(l: Seq<char>) -> bool {
    has_prefix(l, "mp4a"@) || has_prefix(l, "ac-"@) || has_prefix(l, "ec-"@) || has_prefix(
        l,
        "opus"@,
    ) || has_prefix(l, "flac"@)
}

/// A codec string names a video codec, after lower-casing.
pub open spec fn is_video_codec(c: Seq<char>) -> bool {
    video_codec_lower(unicode_lower(c))
}

/// A codec string names an audio codec, after lower-casing.
pub open spec fn is_audio_codec(c: Seq<char>) -> bool {
    audio_codec_lower(unicode_lower(c))
}

/// The last trimmed entry of `parts` that names a video codec.
pub open spec fn last_video_codec(parts: Seq<Seq<char>>) -> Option<Seq<char>>
    decreases parts.len(),
{
    if parts.len() == 0 {
        None
    } else if is_video_codec(trim(parts.last())) {
        Some(trim(parts.last()))
    } else {
        last_video_codec(parts.drop_last())
    }
}

/// The last trimmed entry of `parts` that names an audio codec (and not a video codec).
pub open spec fn last_audio_codec(parts: Seq<Seq<char>>) -> Option<Seq<char>>
    decreases parts.len(),
{
    if parts.len() == 0 {
        None
    } else if !is_video_codec(trim(parts.last())) && is_audio_codec(trim(parts.last())) {
        Some(trim(parts.last()))
    } else {
        last_audio_codec(parts.drop_last())
    }
}

/// The video and audio codecs named in a comma-separated `CODECS` string: of each
/// kind, the last entry that names one.
pub open spec fn codecs_of(codecs: Seq<char>) -> (Option<Seq<char>>, Option<Seq<char>>) {
    (last_video_codec(split_on(codecs, ',')), last_audio_codec(split_on(codecs, ',')))
}

/// Whether the characters `c` name a video codec.
fn video_codec_name(c: &[char]) -> (r: bool)
    ensures
        r == is_video_codec(c@),
{
    let l = to_lower(c);
    names_video_codec(l.as_slice())
}

/// Whether the lower-cased codec string `l` names a video codec.
pub fn names_video_codec(l: &[char]) -> (r: bool)
    ensures
        r == video_codec_lower(l@),
{
    starts_with_str(l, "avc") || starts_with_str(l, "hvc") || starts_with_str(l, "hev")
        || starts_with_str(l, "vp") || starts_with_str(l, "av1")
}

/// Whether the lower-cased codec string `l` names an audio codec.
pub fn names_audio_codec(l: &[char]) -> (r: bool)
    ensures
        r == audio_codec_lower(l@),
{
    starts_with_str(l, "mp4a") || starts_with_str(l, "ac-") || starts_with_str(l, "ec-")
        || starts_with_str(l, "opus") || starts_with_str(l, "flac")
}

/// Whether the characters `c` name an audio codec.
fn audio_codec_name(c: &[char]) -> (r: bool)
    ensures
        r == is_audio_codec(c@),
{
    let l = to_lower(c);
    names_audio_codec(l.as_slice())
}

/// Splits a `CODECS` string into its video and audio codec.
pub fn parse_codecs(codecs: &[char]) -> (r: (Option<String>, Option<String>))
    ensures
        r.0.deep_view() == codecs_of(codecs@).0,
        r.1.deep_view() == codecs_of(codecs@).1,
{
    let parts = split_char(codecs, ',');
    let ghost ps = parts.deep_view();
    let mut video: Option<String> = None;
    let mut audio: Option<String> = None;
    let mut i: usize = 0;
    while i < parts.len()
        invariant
            ps == parts.deep_view(),
            ps == split_on(codecs@, ','),
            i <= ps.len(),
            video.deep_view() == last_video_codec(ps.take(i as int)),
            audio.deep_view() == last_audio_codec(ps.take(i as int)),
        decreases parts.len() - i,
    {
        let c = trim_chars(parts[i].as_slice());
        assert(parts[i as int]@ == ps[i as int]);
        assert(ps.take(i + 1).drop_last() =~= ps.take(i as int));
        assert(ps.take(i + 1).last() == ps[i as int]);
        if video_codec_name(c) {
            video = Some(string_of(c));
        } else if audio_codec_name(c) {
            audio = Some(string_of(c));
        }
        i += 1;
    }
    assert(ps.take(i as int) =~= ps);
    (video, audio)
}

// ---------------------------------------------------------------------------
// Levels
// ---------------------------------------------------------------------------

/// A video quality level.
#[derive(Clone, Debug)]
pub struct Level {
    /// Level index
    pub index: usize,
    /// Bandwidth in bits per second
    pub bitrate: u64,
    /// Average bandwidth if available
    pub avg_bitrate: Option<u64>,
    /// Video resolution
    pub resolution: Option<Resolution>,
    /// Video codec string
    pub video_codec: Option<String>,
    /// Audio codec string
    pub audio_codec: Option<String>,
    /// Codecs string from the manifest
    pub codecs: Option<String>,
    /// Frame rate, as the decimal text of the `FRAME-RATE` attribute
    pub frame_rate: Option<String>,
    /// HDCP level requirement
    pub hdcp_level: Option<String>,
    /// Audio group ID
    pub audio_group: Option<String>,
    /// Subtitle group ID
    pub subtitle_group: Option<String>,
    /// Closed caption group ID
    pub cc_group: Option<String>,
    /// Playlist URL
    pub url: String,
    /// Name/label for the level
    pub name: String,
}

/// A level as plain values.
pub struct LevelV {
    pub index: usize,
    pub bitrate: u64,
    pub avg_bitrate: Option<u64>,
    pub resolution: Option<Resolution>,
    pub video_codec: Option<Seq<char>>,
    pub audio_codec: Option<Seq<char>>,
    pub codecs: Option<Seq<char>>,
    pub frame_rate: Option<Seq<char>>,
    pub hdcp_level: Option<Seq<char>>,
    pub audio_group: Option<Seq<char>>,
    pub subtitle_group: Option<Seq<char>>,
    pub cc_group: Option<Seq<char>>,
    pub url: Seq<char>,
    pub name: Seq<char>,
}

impl View for Level {
    type V = LevelV;

    open spec fn view(&self) -> LevelV {
        LevelV {
            index: self.index,
            bitrate: self.bitrate,
            avg_bitrate: self.avg_bitrate,
            resolution: self.resolution,
            video_codec: self.video_codec.deep_view(),
            audio_codec: self.audio_codec.deep_view(),
            codecs: self.codecs.deep_view(),
            frame_rate: self.frame_rate.deep_view(),
            hdcp_level: self.hdcp_level.deep_view(),
            audio_group: self.audio_group.deep_view(),
            subtitle_group: self.subtitle_group.deep_view(),
            cc_group: self.cc_group.deep_view(),
            url: self.url@,
            name: self.name@,
        }
    }
}

/// The label of a level: `<height>p (<kbps>kbps)` when its resolution is known,
/// else `<kbps>kbps`, where kbps is the bitrate divided by 1000, rounded down.
pub open spec fn level_name(resolution: Option<Resolution>, bitrate: u64) -> Seq<char> {
    match resolution {
        Some(res) => decimal(res.height as nat) + "p ("@ + decimal((bitrate / 1000) as nat)
            + "kbps)"@,
        None => decimal((bitrate / 1000) as nat) + "kbps"@,
    }
}

/// The level that a `#EXT-X-STREAM-INF` tag with attributes `m`, followed by the
/// playlist URL `url`, describes.
pub open spec fn level_from_attrs(index: usize, m: Map<Seq<char>, Seq<char>>, url: Seq<char>) -> LevelV {
    let bitrate = match attr_u64(m, "BANDWIDTH"@) {
        Some(b) => b,
        None => 0,
    };
    let resolution = match attr(m, "RESOLUTION"@) {
        Some(r) => resolution_from_text(r),
        None => None,
    };
    let codecs = attr(m, "CODECS"@);
    LevelV {
        index,
        bitrate,
        avg_bitrate: attr_u64(m, "AVERAGE-BANDWIDTH"@),
        resolution,
        video_codec: match codecs {
            Some(c) => codecs_of(c).0,
            None => None,
        },
        audio_codec: match codecs {
            Some(c) => codecs_of(c).1,
            None => None,
        },
        codecs,
        frame_rate: attr_float(m, "FRAME-RATE"@),
        hdcp_level: attr(m, "HDCP-LEVEL"@),
        audio_group: attr(m, "AUDIO"@),
        subtitle_group: attr(m, "SUBTITLES"@),
        cc_group: attr(m, "CLOSED-CAPTIONS"@),
        url,
        name: level_name(resolution, bitrate),
    }
}

/// Whether a level fits a maximum width and height, where 0 means no limit; a
/// level of unknown resolution fits.
pub open spec fn fits(resolution: Option<Resolution>, max_width: u32, max_height: u32) -> bool {
    if max_width == 0 && max_height == 0 {
        true
    } else {
        match resolution {
            Some(res) => (max_width == 0 || res.width <= max_width) && (max_height == 0
                || res.height <= max_height),
            None => true,
        }
    }
}

/// Whether a level whose HDCP level is `level` may play where `required` is
/// required: yes when either is absent, else when its rank is at most the required rank.
pub open spec fn hdcp_compatible(level: Option<Seq<char>>, required: Option<Seq<char>>) -> bool {
    match (required, level) {
        (None, _) => true,
        (Some(_), None) => true,
        (Some(req), Some(l)) => hdcp_rank(l) <= hdcp_rank(req),
    }
}

impl Level {
    /// Creates a level from stream info attributes.
    pub fn from_stream_inf(index: usize, attrs: &Attributes, url: &str) -> (r: Self)
        ensures
            r@ == level_from_attrs(index, attrs@, url@),
    {
        let bitrate = match get_u64(attrs, "BANDWIDTH") {
            Some(b) => b,
            None => 0,
        };
        let avg_bitrate = get_u64(attrs, "AVERAGE-BANDWIDTH");
        let resolution = match attrs.get("RESOLUTION") {
            Some(r) => Resolution::parse_chars(r),
            None => None,
        };
        let codecs_chars = attrs.get("CODECS");
        let (video_codec, audio_codec) = match codecs_chars {
            Some(c) => parse_codecs(c),
            None => (None, None),
        };
        let codecs = opt_string(codecs_chars);
        let frame_rate = get_float_text(attrs, "FRAME-RATE");
        let hdcp_level = opt_string(attrs.get("HDCP-LEVEL"));
        let audio_group = opt_string(attrs.get("AUDIO"));
        let subtitle_group = opt_string(attrs.get("SUBTITLES"));
        let cc_group = opt_string(attrs.get("CLOSED-CAPTIONS"));
        let mut name: Vec<char> = Vec::new();
        match resolution {
            Some(res) => {
                let h = decimal_chars(res.height as u64);
                push_chars(&mut name, h.as_slice());
                push_str(&mut name, "p (");
                let k = decimal_chars(bitrate / 1000);
                push_chars(&mut name, k.as_slice());
                push_str(&mut name, "kbps)");
            },
            None => {
                let k = decimal_chars(bitrate / 1000);
                push_chars(&mut name, k.as_slice());
                push_str(&mut name, "kbps");
            },
        }
        Level {
            index,
            bitrate,
            avg_bitrate,
            resolution,
            video_codec,
            audio_codec,
            codecs,
            frame_rate,
            hdcp_level,
            audio_group,
            subtitle_group,
            cc_group,
            url: url.to_owned(),
            name: string_of(name.as_slice()),
        }
    }

    /// Whether this level is compatible with the given HDCP requirement
    /// (levels rank `NONE` < `TYPE-0` < `TYPE-1`).
    pub fn is_hdcp_compatible(&self, required: Option<&str>) -> (r: bool)
        ensures
            r == hdcp_compatible(
                self.hdcp_level.deep_view(),
                match required {
                    Some(q) => Some(q@),
                    None => None,
                },
            ),
    {
        match (required, &self.hdcp_level) {
            (None, _) => true,
            (Some(_), None) => true,
            (Some(req), Some(level)) => {
                let rq = chars_of(req);
                let lv = chars_of(level.as_str());
                hdcp_value(lv.as_slice()) <= hdcp_value(rq.as_slice())
            },
        }
    }

    /// Whether this level fits within the resolution limits (0 = no limit).
    pub fn fits_resolution(&self, max_width: u32, max_height: u32) -> (r: bool)
        ensures
            r == fits(self.resolution, max_width, max_height),
    {
        if max_width == 0 && max_height == 0 {
            return true;
        }
        match &self.resolution {
            Some(res) => (max_width == 0 || res.width <= max_width) && (max_height == 0
                || res.height <= max_height),
            None => true,
        }
    }
}

// ---------------------------------------------------------------------------
// Renditions
// ---------------------------------------------------------------------------

/// Kinds of alternative rendition.
#[derive(Clone, Copy, Debug, PartialEq, Eq, Structural)]
pub enum RenditionType {
    Audio,
    Video,
    Subtitles,
    ClosedCaptions,
}

/// An alternative rendition (audio, subtitle or caption track).
#[derive(Clone, Debug)]
pub struct Rendition {
    pub media_type: RenditionType,
    pub group_id: String,
    pub name: String,
    pub language: Option<String>,
    pub assoc_language: Option<String>,
    pub default: bool,
    pub autoselect: bool,
    pub forced: bool,
    pub characteristics: Option<String>,
    pub channels: Option<String>,
    pub uri: Option<String>,
}

/// A rendition as plain values.
pub struct RenditionV {
    pub media_type: RenditionType,
    pub group_id: Seq<char>,
    pub name: Seq<char>,
    pub language: Option<Seq<char>>,
    pub assoc_language: Option<Seq<char>>,
    pub default: bool,
    pub autoselect: bool,
    pub forced: bool,
    pub characteristics: Option<Seq<char>>,
    pub channels: Option<Seq<char>>,
    pub uri: Option<Seq<char>>,
}

impl View for Rendition {
    type V = RenditionV;

    open spec fn view(&self) -> RenditionV {
        RenditionV {
            media_type: self.media_type,
            group_id: self.group_id@,
            name: self.name@,
            language: self.language.deep_view(),
            assoc_language: self.assoc_language.deep_view(),
            default: self.default,
            autoselect: self.autoselect,
            forced: self.forced,
            characteristics: self.characteristics.deep_view(),
            channels: self.channels.deep_view(),
            uri: self.uri.deep_view(),
        }
    }
}

/// The rendition type that an upper-cased `TYPE` value names.
pub open spec fn rendition_type_upper(u: Seq<char>) -> Option<RenditionType> {
    if u == "AUDIO"@ {
        Some(RenditionType::Audio)
    } else if u == "VIDEO"@ {
        Some(RenditionType::Video)
    } else if u == "SUBTITLES"@ {
        Some(RenditionType::Subtitles)
    } else if u == "CLOSED-CAPTIONS"@ {
        Some(RenditionType::ClosedCaptions)
    } else {
        None
    }
}

/// The rendition type that a `TYPE` value names, after Unicode upper-casing.
pub open spec fn rendition_type_of(t: Seq<char>) -> Option<RenditionType> {
    rendition_type_upper(unicode_upper(t))
}

/// The rendition type that the upper-cased `TYPE` value `u` names; `None` for
/// one it does not know.
pub fn rendition_type_from_upper(u: &[char]) -> (r: Option<RenditionType>)
    ensures
        r == rendition_type_upper(u@),
{
    if eq_str(u, "AUDIO") {
        Some(RenditionType::Audio)
    } else if eq_str(u, "VIDEO") {
        Some(RenditionType::Video)
    } else if eq_str(u, "SUBTITLES") {
        Some(RenditionType::Subtitles)
    } else if eq_str(u, "CLOSED-CAPTIONS") {
        Some(RenditionType::ClosedCaptions)
    } else {
        None
    }
}

/// The rendition that a `#EXT-X-MEDIA` tag with attributes `m` describes: it needs
/// a known `TYPE` and a `GROUP-ID`; text values lose their surrounding quotes.
pub open spec fn rendition_from_attrs(m: Map<Seq<char>, Seq<char>>) -> Option<RenditionV> {
    match attr(m, "TYPE"@) {
        None => None,
        Some(t) => match rendition_type_of(t) {
            None => None,
            Some(ty) => match attr(m, "GROUP-ID"@) {
                None => None,
                Some(g) => Some(
                    RenditionV {
                        media_type: ty,
                        group_id: trim_char(g, '"'),
                        name: match attr_unquoted(m, "NAME"@) {
                            Some(n) => n,
                            None => Seq::empty(),
                        },
                        language: attr_unquoted(m, "LANGUAGE"@),
                        assoc_language: attr_unquoted(m, "ASSOC-LANGUAGE"@),
                        default: attr_yes(m, "DEFAULT"@),
                        autoselect: attr_yes(m, "AUTOSELECT"@),
                        forced: attr_yes(m, "FORCED"@),
                        characteristics: attr_unquoted(m, "CHARACTERISTICS"@),
                        channels: attr_unquoted(m, "CHANNELS"@),
                        uri: attr_unquoted(m, "URI"@),
                    },
                ),
            },
        },
    }
}

/// The view of an optional rendition.
pub open spec fn opt_rendition_view(r: Option<Rendition>) -> Option<RenditionV> {
    match r {
        Some(x) => Some(x@),
        None => None,
    }
}

impl Rendition {
    /// Reads a rendition from the attributes of a `#EXT-X-MEDIA` tag.
    pub fn parse(attrs: &Attributes) -> (r: Option<Self>)
        ensures
            opt_rendition_view(r) == rendition_from_attrs(attrs@),
    {
        let t = match attrs.get("TYPE") {
            Some(t) => t,
            None => return None,
        };
        let u = to_upper(t);
        let media_type = match rendition_type_from_upper(u.as_slice()) {
            Some(m) => m,
            None => return None,
        };
        let group_id = match attrs.get("GROUP-ID") {
            Some(g) => string_of(trim_matches_char(g, '"')),
            None => return None,
        };
        let name = match get_unquoted(attrs, "NAME") {
            Some(n) => n,
            None => String::new(),
        };
        Some(
            Rendition {
                media_type,
                group_id,
                name,
                language: get_unquoted(attrs, "LANGUAGE"),
                assoc_language: get_unquoted(attrs, "ASSOC-LANGUAGE"),
                default: get_yes(attrs, "DEFAULT"),
                autoselect: get_yes(attrs, "AUTOSELECT"),
                forced: get_yes(attrs, "FORCED"),
                characteristics: get_unquoted(attrs, "CHARACTERISTICS"),
                channels: get_unquoted(attrs, "CHANNELS"),
                uri: get_unquoted(attrs, "URI"),
            },
        )
    }
}

// ---------------------------------------------------------------------------
// Encryption keys, byte ranges and init segments
// ---------------------------------------------------------------------------

/// Encryption methods of media segments.
#[derive(Clone, Copy, Debug, PartialEq, Eq, Structural)]
pub enum EncryptionMethod {
    NoEncryption,
    Aes128,
    SampleAes,
    SampleAesCtr,
    SampleAesCenc,
}

/// The method that an upper-cased `METHOD` value names; anything unknown
/// means no encryption.
pub open spec fn method_upper(u: Seq<char>) -> EncryptionMethod {
    if u == "NONE"@ {
        EncryptionMethod::NoEncryption
    } else if u == "AES-128"@ {
        EncryptionMethod::Aes128
    } else if u == "SAMPLE-AES"@ {
        EncryptionMethod::SampleAes
    } else if u == "SAMPLE-AES-CTR"@ {
        EncryptionMethod::SampleAesCtr
    } else if u == "SAMPLE-AES-CENC"@ {
        EncryptionMethod::SampleAesCenc
    } else {
        EncryptionMethod::NoEncryption
    }
}

/// The method that a `METHOD` value names after Unicode upper-casing.
pub open spec fn method_of(s: Seq<char>) -> EncryptionMethod {
    method_upper(unicode_upper(s))
}

impl EncryptionMethod {
    /// Reads an encryption method name.
    pub fn parse(s: &str) -> (r: Self)
        ensures
            r == method_of(s@),
    {
        let cs = chars_of(s);
        Self::parse_chars(cs.as_slice())
    }

    /// Reads an encryption method name given as characters.
    pub fn parse_chars(s: &[char]) -> (r: Self)
        ensures
            r == method_of(s@),
    {
        let u = to_upper(s);
        Self::from_upper(u.as_slice())
    }

    /// Reads an encryption method name that is already upper-cased.
    pub fn from_upper(u: &[char]) -> (r: Self)
        ensures
            r == method_upper(u@),
    {
        if eq_str(u, "NONE") {
            EncryptionMethod::NoEncryption
        } else if eq_str(u, "AES-128") {
            EncryptionMethod::Aes128
        } else if eq_str(u, "SAMPLE-AES") {
            EncryptionMethod::SampleAes
        } else if eq_str(u, "SAMPLE-AES-CTR") {
            EncryptionMethod::SampleAesCtr
        } else if eq_str(u, "SAMPLE-AES-CENC") {
            EncryptionMethod::SampleAesCenc
        } else {
            EncryptionMethod::NoEncryption
        }
    }
}

/// Encryption key information.
#[derive(Clone, Debug)]
pub struct KeyInfo {
    pub method: EncryptionMethod,
    pub uri: Option<String>,
    pub iv: Option<Vec<u8>>,
    pub key_format: Option<String>,
    pub key_format_versions: Option<String>,
}

/// Key information as plain values.
pub struct KeyInfoV {
    pub method: EncryptionMethod,
    pub uri: Option<Seq<char>>,
    pub iv: Option<Seq<u8>>,
    pub key_format: Option<Seq<char>>,
    pub key_format_versions: Option<Seq<char>>,
}

impl View for KeyInfo {
    type V = KeyInfoV;

    open spec fn view(&self) -> KeyInfoV {
        KeyInfoV {
            method: self.method,
            uri: self.uri.deep_view(),
            iv: self.iv.deep_view(),
            key_format: self.key_format.deep_view(),
            key_format_versions: self.key_format_versions.deep_view(),
        }
    }
}

/// The view of optional key information.
pub open spec fn opt_key_view(k: Option<KeyInfo>) -> Option<KeyInfoV> {
    match k {
        Some(x) => Some(x@),
        None => None,
    }
}

/// Reading the `IV` of a key tag with attributes `m` would slice through a character.
pub open spec fn key_iv_breaks(m: Map<Seq<char>, Seq<char>>) -> bool {
    m.contains_key("METHOD"@) && m.contains_key("IV"@) && hex_strict_breaks(m["IV"@])
}

/// The key that a `#EXT-X-KEY` or `#EXT-X-SESSION-KEY` tag with attributes `m`
/// describes; it needs a `METHOD`.
pub open spec fn key_from_attrs(m: Map<Seq<char>, Seq<char>>) -> Option<KeyInfoV> {
    match attr(m, "METHOD"@) {
        None => None,
        Some(method) => Some(
            KeyInfoV {
                method: method_of(method),
                uri: attr(m, "URI"@),
                iv: match attr(m, "IV"@) {
                    Some(v) => hex_from_text(v),
                    None => None,
                },
                key_format: attr(m, "KEYFORMAT"@),
                key_format_versions: attr(m, "KEYFORMATVERSIONS"@),
            },
        ),
    }
}

/// Whether reading the `IV` of a key tag with these attributes would slice
/// through a character (see [`parse_key_info`]).
pub fn key_iv_would_break(attrs: &Attributes) -> (r: bool)
    ensures
        r == key_iv_breaks(attrs@),
{
    proof {
        reveal_strlit("METHOD");
        reveal_strlit("IV");
    }
    if attrs.get("METHOD").is_none() {
        return false;
    }
    match attrs.get("IV") {
        Some(v) => crate::hex::hex_strict_would_break(v),
        None => false,
    }
}

/// Reads key information from a key tag's attributes.
pub fn parse_key_info(attrs: &Attributes) -> (r: Option<KeyInfo>)
    requires
        !key_iv_breaks(attrs@),
    ensures
        opt_key_view(r) == key_from_attrs(attrs@),
{
    let method_chars = match attrs.get("METHOD") {
        Some(m) => m,
        None => return None,
    };
    let method = EncryptionMethod::parse_chars(method_chars);
    let uri = opt_string(attrs.get("URI"));
    let iv = match attrs.get("IV") {
        Some(v) => parse_hex_string(v),
        None => None,
    };
    let key_format = opt_string(attrs.get("KEYFORMAT"));
    let key_format_versions = opt_string(attrs.get("KEYFORMATVERSIONS"));
    Some(KeyInfo { method, uri, iv, key_format, key_format_versions })
}

/// A byte range `LENGTH[@OFFSET]`, as `(offset, length)`: the length must read as a
/// `u64`; an offset that is absent or unreadable counts as 0.
pub open spec fn byte_range_from_text(s: Seq<char>) -> Option<(u64, u64)> {
    match u64_from_text(before(s, '@')) {
        None => None,
        Some(len) => {
            let off = if lacks(s, '@') {
                0
            } else {
                match u64_from_text(before(after(s, '@'), '@')) {
                    Some(o) => o,
                    None => 0,
                }
            };
            Some((off, len))
        },
    }
}

/// Reads a byte range `LENGTH[@OFFSET]` as `(offset, length)`.
pub fn parse_byte_range(s: &[char]) -> (r: Option<(u64, u64)>)
    ensures
        r == byte_range_from_text(s@),
{
    let n = s.len();
    match find_char(s, '@') {
        None => {
            assert(s@ == before(s@, '@'));
            match parse_u64(s) {
                Some(len) => Some((0, len)),
                None => None,
            }
        },
        Some(i) => {
            let first = &s[0..i];
            let rest = &s[i + 1..n];
            assert(first@ =~= before(s@, '@'));
            assert(rest@ =~= after(s@, '@'));
            let len = match parse_u64(first) {
                Some(l) => l,
                None => return None,
            };
            let second: &[char] = match find_char(rest, '@') {
                Some(j) => &rest[0..j],
                None => rest,
            };
            assert(second@ =~= before(rest@, '@'));
            let off = match parse_u64(second) {
                Some(o) => o,
                None => 0,
            };
            Some((off, len))
        },
    }
}

/// Initialization segment information.
#[derive(Clone, Debug)]
pub struct MapInfo {
    pub uri: String,
    pub byte_range: Option<(u64, u64)>,
}

/// Initialization segment information as plain values.
pub struct MapInfoV {
    pub uri: Seq<char>,
    pub byte_range: Option<(u64, u64)>,
}

impl View for MapInfo {
    type V = MapInfoV;

    open spec fn view(&self) -> MapInfoV {
        MapInfoV { uri: self.uri@, byte_range: self.byte_range }
    }
}

/// The view of optional init segment information.
pub open spec fn opt_map_view(m: Option<MapInfo>) -> Option<MapInfoV> {
    match m {
        Some(x) => Some(x@),
        None => None,
    }
}

/// Session data from a master playlist.
#[derive(Clone, Debug)]
pub struct SessionData {
    pub data_id: String,
    pub value: Option<String>,
    pub uri: Option<String>,
    pub language: Option<String>,
}

/// Session data as plain values.
pub struct SessionDataV {
    pub data_id: Seq<char>,
    pub value: Option<Seq<char>>,
    pub uri: Option<Seq<char>>,
    pub language: Option<Seq<char>>,
}

impl View for SessionData {
    type V = SessionDataV;

    open spec fn view(&self) -> SessionDataV {
        SessionDataV {
            data_id: self.data_id@,
            value: self.value.deep_view(),
            uri: self.uri.deep_view(),
            language: self.language.deep_view(),
        }
    }
}

/// The session data that a `#EXT-X-SESSION-DATA` tag with attributes `m`
/// describes; it needs a `DATA-ID`.
pub open spec fn session_data_from_attrs(m: Map<Seq<char>, Seq<char>>) -> Option<SessionDataV> {
    match attr(m, "DATA-ID"@) {
        None => None,
        Some(id) => Some(
            SessionDataV {
                data_id: id,
                value: attr(m, "VALUE"@),
                uri: attr(m, "URI"@),
                language: attr(m, "LANGUAGE"@),
            },
        ),
    }
}

/// Reads session data from a `#EXT-X-SESSION-DATA` tag's attributes.
pub fn parse_session_data(attrs: &Attributes) -> (r: Option<SessionData>)
    ensures
        match r {
            Some(d) => session_data_from_attrs(attrs@) == Some(d@),
            None => session_data_from_attrs(attrs@) is None,
        },
{
    match attrs.get("DATA-ID") {
        None => None,
        Some(id) => Some(
            SessionData {
                data_id: string_of(id),
                value: opt_string(attrs.get("VALUE")),
                uri: opt_string(attrs.get("URI")),
                language: opt_string(attrs.get("LANGUAGE")),
            },
        ),
    }
}

// ---------------------------------------------------------------------------
// Date ranges
// ---------------------------------------------------------------------------

/// A date range tag.
#[derive(Clone, Debug)]
pub struct DateRangeTag {
    pub id: String,
    pub class: Option<String>,
    pub start_date: String,
    pub end_date: Option<String>,
    /// Duration, as the decimal text of the `DURATION` attribute
    pub duration: Option<String>,
    /// Planned duration, as the decimal text of the `PLANNED-DURATION` attribute
    pub planned_duration: Option<String>,
    pub scte35_cmd: Option<String>,
    pub scte35_out: Option<String>,
    pub scte35_in: Option<String>,
    pub end_on_next: bool,
    /// The client attributes (`X-` names)
    pub client_attributes: Attributes,
}

/// A date range tag as plain values.
pub struct DateRangeTagV {
    pub id: Seq<char>,
    pub class: Option<Seq<char>>,
    pub start_date: Seq<char>,
    pub end_date: Option<Seq<char>>,
    pub duration: Option<Seq<char>>,
    pub planned_duration: Option<Seq<char>>,
    pub scte35_cmd: Option<Seq<char>>,
    pub scte35_out: Option<Seq<char>>,
    pub scte35_in: Option<Seq<char>>,
    pub end_on_next: bool,
    pub client_attributes: Map<Seq<char>, Seq<char>>,
}

impl View for DateRangeTag {
    type V = DateRangeTagV;

    open spec fn view(&self) -> DateRangeTagV {
        DateRangeTagV {
            id: self.id@,
            class: self.class.deep_view(),
            start_date: self.start_date@,
            end_date: self.end_date.deep_view(),
            duration: self.duration.deep_view(),
            planned_duration: self.planned_duration.deep_view(),
            scte35_cmd: self.scte35_cmd.deep_view(),
            scte35_out: self.scte35_out.deep_view(),
            scte35_in: self.scte35_in.deep_view(),
            end_on_next: self.end_on_next,
            client_attributes: self.client_attributes@,
        }
    }
}

impl DateRangeTag {
    /// A copy of this date range.
    pub fn copied(&self) -> (r: Self)
        ensures
            r@ == self@,
    {
        DateRangeTag {
            id: self.id.clone(),
            class: crate::hls::master::copy_opt(&self.class),
            start_date: self.start_date.clone(),
            end_date: crate::hls::master::copy_opt(&self.end_date),
            duration: crate::hls::master::copy_opt(&self.duration),
            planned_duration: crate::hls::master::copy_opt(&self.planned_duration),
            scte35_cmd: crate::hls::master::copy_opt(&self.scte35_cmd),
            scte35_out: crate::hls::master::copy_opt(&self.scte35_out),
            scte35_in: crate::hls::master::copy_opt(&self.scte35_in),
            end_on_next: self.end_on_next,
            client_attributes: self.client_attributes.copied(),
        }
    }
}

/// The client attributes of `m`: those whose names begin with `X-`.
pub open spec fn client_attrs(m: Map<Seq<char>, Seq<char>>) -> Map<Seq<char>, Seq<char>> {
    m.restrict(Set::new(|k: Seq<char>| has_prefix(k, "X-"@)))
}

/// The date range that a `#EXT-X-DATERANGE` tag with attributes `m` describes;
/// it needs an `ID` and a `START-DATE`.
pub open spec fn date_range_from_attrs(m: Map<Seq<char>, Seq<char>>) -> Option<DateRangeTagV> {
    match (attr(m, "ID"@), attr(m, "START-DATE"@)) {
        (Some(id), Some(start)) => Some(
            DateRangeTagV {
                id,
                class: attr(m, "CLASS"@),
                start_date: start,
                end_date: attr(m, "END-DATE"@),
                duration: attr_float(m, "DURATION"@),
                planned_duration: attr_float(m, "PLANNED-DURATION"@),
                scte35_cmd: attr(m, "SCTE35-CMD"@),
                scte35_out: attr(m, "SCTE35-OUT"@),
                scte35_in: attr(m, "SCTE35-IN"@),
                end_on_next: attr_yes(m, "END-ON-NEXT"@),
                client_attributes: client_attrs(m),
            },
        ),
        _ => None,
    }
}

/// The view of an optional date range.
pub open spec fn opt_date_range_view(d: Option<DateRangeTag>) -> Option<DateRangeTagV> {
    match d {
        Some(x) => Some(x@),
        None => None,
    }
}

/// Reads a date range from a `#EXT-X-DATERANGE` tag's attributes.
pub fn parse_date_range(attrs: &Attributes) -> (r: Option<DateRangeTag>)
    ensures
        opt_date_range_view(r) == date_range_from_attrs(attrs@),
{
    let id = match attrs.get("ID") {
        Some(v) => string_of(v),
        None => return None,
    };
    let start_date = match attrs.get("START-DATE") {
        Some(v) => string_of(v),
        None => return None,
    };
    proof {
        reveal_strlit("X-");
    }
    let client_attributes = attrs.with_prefix("X-");
    Some(
        DateRangeTag {
            id,
            class: opt_string(attrs.get("CLASS")),
            start_date,
            end_date: opt_string(attrs.get("END-DATE")),
            duration: get_float_text(attrs, "DURATION"),
            planned_duration: get_float_text(attrs, "PLANNED-DURATION"),
            scte35_cmd: opt_string(attrs.get("SCTE35-CMD")),
            scte35_out: opt_string(attrs.get("SCTE35-OUT")),
            scte35_in: opt_string(attrs.get("SCTE35-IN")),
            end_on_next: get_yes(attrs, "END-ON-NEXT"),
            client_attributes,
        },
    )
}

// ---------------------------------------------------------------------------
// URLs
// ---------------------------------------------------------------------------

/// A URL reference resolved against the URL of the playlist that holds it:
/// an absolute `http(s)://` URL stays as it is; a path starting with `/` goes after
/// the base's origin (scheme and host), or after the base without trailing slashes
/// when no origin can be found; anything else goes after the base's directory
/// (everything up to and including its last `/`, or the whole base without one).
pub open spec fn resolved_url(base: Seq<char>, rel: Seq<char>) -> Seq<char> {
    if has_prefix(rel, "http://"@) || has_prefix(rel, "https://"@) {
        rel
    } else if has_prefix(rel, "/"@) {
        if contains_seq(base, "://"@) && !lacks(base.skip(find_seq(base, "://"@) + 3), '/') {
            let idx = find_seq(base, "://"@);
            base.take(idx + 3 + index_of(base.skip(idx + 3), '/')) + rel
        } else {
            trim_end_char(base, '/') + rel
        }
    } else if lacks(base, '/') {
        base + rel
    } else {
        base.take(last_index_of(base, '/') + 1) + rel
    }
}

/// A resolved URL always ends with the reference, and an absolute `http(s)://`
/// reference is the resolved URL itself.
pub proof fn law_resolved_url_ends_with_reference(base: Seq<char>, rel: Seq<char>)
    ensures
        resolved_url(base, rel).len() >= rel.len(),
        resolved_url(base, rel).skip(resolved_url(base, rel).len() - rel.len()) == rel,
        (has_prefix(rel, "http://"@) || has_prefix(rel, "https://"@)) ==> resolved_url(base, rel)
            == rel,
{
    let r = resolved_url(base, rel);
    assert(r.skip(r.len() - rel.len()) =~= rel);
}

/// Resolves `relative` against the URL `base` (characters in, characters out).
pub fn resolve_url_chars(base: &[char], relative: &[char]) -> (r: Vec<char>)
    ensures
        r@ == resolved_url(base@, relative@),
{
    let mut out: Vec<char> = Vec::new();
    if starts_with_str(relative, "http://") || starts_with_str(relative, "https://") {
        push_chars(&mut out, relative);
        return out;
    }
    let bn = base.len();
    if starts_with_str(relative, "/") {
        match find_str(base, "://") {
            Some(idx) => {
                proof {
                    reveal_strlit("://");
                }
                assert(idx + 3 <= bn);
                let after_scheme = &base[idx + 3..bn];
                assert(after_scheme@ =~= base@.skip(idx + 3));
                match find_char(after_scheme, '/') {
                    Some(p) => {
                        push_chars(&mut out, &base[0..idx + 3 + p]);
                        push_chars(&mut out, relative);
                        assert(base@.subrange(0, idx + 3 + p) =~= base@.take(idx + 3 + p));
                        return out;
                    },
                    None => {},
                }
            },
            None => {},
        }
        push_chars(&mut out, trim_end_matches_char(base, '/'));
        push_chars(&mut out, relative);
        return out;
    }
    match rfind_char(base, '/') {
        Some(i) => {
            push_chars(&mut out, &base[0..i + 1]);
            assert(base@.subrange(0, i + 1) =~= base@.take(i + 1));
        },
        None => {
            push_chars(&mut out, base);
        },
    }
    push_chars(&mut out, relative);
    out
}

/// Resolves a URL relative to a base URL.
pub fn resolve_url(base: &str, relative: &str) -> (r: String)
    ensures
        r@ == resolved_url(base@, relative@),
{
    let b = chars_of(base);
    let rl = chars_of(relative);
    let r = resolve_url_chars(b.as_slice(), rl.as_slice());
    string_of(r.as_slice())
}

/// Whether text is a master playlist: it mentions `#EXT-X-STREAM-INF` or `#EXT-X-MEDIA:`.
pub open spec fn is_master_text(text: Seq<char>) -> bool {
    contains_seq(text, "#EXT-X-STREAM-INF"@) || contains_seq(text, "#EXT-X-MEDIA:"@)
}

/// Determines whether playlist text is a master playlist.
pub fn is_master_playlist(text: &str) -> (r: bool)
    ensures
        r == is_master_text(text@),
{
    let cs = chars_of(text);
    contains_str(cs.as_slice(), "#EXT-X-STREAM-INF") || contains_str(cs.as_slice(), "#EXT-X-MEDIA:")
}

} // verus!
