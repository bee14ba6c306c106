//! Timed metadata: ID3 tags, EMSG boxes and DATERANGE playlist tags.
use crate::hex::{hex_lenient_breaks, hex_lenient_from_text, parse_hex};
use crate::hls::events::{DateRange, EmsgEvent, EmsgEventV, Id3Frame, Id3FrameV, Id3Sample};
use crate::hls::media::date_range_views;
use crate::hls::playlist::{DateRangeTag, DateRangeTagV};
use crate::hls::master::copy_opt;
use crate::std_text::{utf8_lossy, utf8_lossy_chars, utf8_to_chars};
use crate::text::{chars_of, string_of};
use vstd::prelude::*;
use vstd::utf8::{decode_utf8, valid_utf8};

verus! {

/// The big-endian 32-bit number in the four bytes of `d` at `i`.
pub open spec fn be32(d: Seq<u8>, i: int) -> int {
    d[i] as int * 16777216 + d[i + 1] as int * 65536 + d[i + 2] as int * 256 + d[i + 3] as int
}

/// The tag size of an ID3v2 header: a "syncsafe" integer, seven bits from each
/// of the bytes 6 to 9.
pub open spec fn id3_size(d: Seq<u8>) -> int {
    (d[6] % 128) as int * 2097152 + (d[7] % 128) as int * 16384 + (d[8] % 128) as int * 128 + (d[9]
        % 128) as int
}

/// The frames of the body `d` of an ID3 tag: each a 4-byte id, a 4-byte
/// big-endian size, 2 flag bytes and the data. Reading stops at padding (an id of
/// four zero bytes), at a frame that runs past the end, or when fewer than ten
/// bytes remain.
pub open spec fn id3_frames(d: Seq<u8>) -> Seq<Id3FrameV>
    decreases d.len(),
{
    if d.len() < 10 || (d[0] == 0 && d[1] == 0 && d[2] == 0 && d[3] == 0) {
        Seq::empty()
    } else if 10 + be32(d, 4) > d.len() {
        Seq::empty()
    } else {
        seq![Id3FrameV { id: utf8_lossy(d.take(4)), data: d.subrange(10, 10 + be32(d, 4)) }]
            + id3_frames(d.skip(10 + be32(d, 4)))
    }
}

/// The four big-endian bytes of `n`.
pub open spec fn be32_bytes(n: u32) -> Seq<u8> {
    seq![
        ((n >> 24u32) & 0xffu32) as u8,
        ((n >> 16u32) & 0xffu32) as u8,
        ((n >> 8u32) & 0xffu32) as u8,
        (n & 0xffu32) as u8,
    ]
}

/// An ID3 frame written out: its 4-byte id, the size of its data in four
/// big-endian bytes, two zero flag bytes, and the data.
pub open spec fn frame_bytes(id: Seq<u8>, data: Seq<u8>) -> Seq<u8> {
    id + be32_bytes(data.len() as u32) + seq![0u8, 0u8] + data
}

/// Frames written out one after another.
pub open spec fn frames_bytes(frames: Seq<(Seq<u8>, Seq<u8>)>) -> Seq<u8>
    decreases frames.len(),
{
    if frames.len() == 0 {
        Seq::empty()
    } else {
        frame_bytes(frames[0].0, frames[0].1) + frames_bytes(frames.drop_first())
    }
}

/// A frame that can be written: a 4-byte id that is not padding (not four
/// zero bytes), and data whose size fits 32 bits.
pub open spec fn writable_frame(f: (Seq<u8>, Seq<u8>)) -> bool {
    &&& f.0.len() == 4
    &&& !(f.0[0] == 0 && f.0[1] == 0 && f.0[2] == 0 && f.0[3] == 0)
    &&& f.1.len() <= u32::MAX
}

/// What remains after the frames of a body: nothing to read (fewer than ten
/// bytes) or padding (starting with four zero bytes).
pub open spec fn frames_end(tail: Seq<u8>) -> bool {
    tail.len() < 10 || (tail[0] == 0 && tail[1] == 0 && tail[2] == 0 && tail[3] == 0)
}

/// The four bytes of a size read back as the size.
proof fn lemma_be32_bytes(n: u32)
    ensures
        be32(be32_bytes(n), 0) == n,
{
    let b0 = (n >> 24u32) & 0xffu32;
    let b1 = (n >> 16u32) & 0xffu32;
    let b2 = (n >> 8u32) & 0xffu32;
    let b3 = n & 0xffu32;
    assert(b0 < 256 && b1 < 256 && b2 < 256 && b3 < 256) by (bit_vector)
        requires
            b0 == (n >> 24u32) & 0xffu32,
            b1 == (n >> 16u32) & 0xffu32,
            b2 == (n >> 8u32) & 0xffu32,
            b3 == n & 0xffu32,
    ;
    assert(b0 * 16777216 + b1 * 65536 + b2 * 256 + b3 == n) by (bit_vector)
        requires
            b0 == (n >> 24u32) & 0xffu32,
            b1 == (n >> 16u32) & 0xffu32,
            b2 == (n >> 8u32) & 0xffu32,
            b3 == n & 0xffu32,
    ;
    let d = be32_bytes(n);
    assert(d[0] as int == b0 as int && d[1] as int == b1 as int && d[2] as int == b2 as int
        && d[3] as int == b3 as int);
}

/// Reading the body made of writable frames written one after another, and
/// then nothing or padding, gives back every one of those frames, in order,
/// each with its id and its data: reading goes on after each complete frame.
pub proof fn law_id3_frames_read_back(frames: Seq<(Seq<u8>, Seq<u8>)>, tail: Seq<u8>)
    requires
        forall|i: int| 0 <= i < frames.len() ==> writable_frame(#[trigger] frames[i]),
        frames_end(tail),
    ensures
        id3_frames(frames_bytes(frames) + tail) == frames.map_values(
            |f: (Seq<u8>, Seq<u8>)| Id3FrameV { id: utf8_lossy(f.0), data: f.1 },
        ),
    decreases frames.len(),
{
    let out = frames.map_values(|f: (Seq<u8>, Seq<u8>)| Id3FrameV { id: utf8_lossy(f.0), data: f.1 });
    if frames.len() == 0 {
        assert(frames_bytes(frames) + tail =~= tail);
        assert(out =~= Seq::<Id3FrameV>::empty());
    } else {
        let f = frames[0];
        assert(writable_frame(f));
        let rest = frames.drop_first();
        assert forall|i: int| 0 <= i < rest.len() implies writable_frame(#[trigger] rest[i]) by {
            assert(rest[i] == frames[i + 1]);
        }
        law_id3_frames_read_back(rest, tail);
        let n = f.1.len() as u32;
        lemma_be32_bytes(n);
        let fb = frame_bytes(f.0, f.1);
        let d = frames_bytes(frames) + tail;
        let r = frames_bytes(rest) + tail;
        assert(d =~= fb + r);
        assert(fb.len() == 10 + f.1.len());
        assert(d.take(4) =~= f.0);
        assert(d[0] == f.0[0] && d[1] == f.0[1] && d[2] == f.0[2] && d[3] == f.0[3]);
        let sz = be32_bytes(n);
        assert(d[4] == sz[0] && d[5] == sz[1] && d[6] == sz[2] && d[7] == sz[3]);
        assert(be32(d, 4) == be32(sz, 0));
        assert(be32(d, 4) == f.1.len());
        assert(d.subrange(10, 10 + be32(d, 4)) =~= f.1);
        assert(d.skip(10 + be32(d, 4)) =~= r);
        let rest_out = rest.map_values(|f: (Seq<u8>, Seq<u8>)| Id3FrameV { id: utf8_lossy(f.0), data: f.1 });
        assert(out =~= seq![Id3FrameV { id: utf8_lossy(f.0), data: f.1 }] + rest_out);
    }
}

/// The ID3 tag at the start of `d`: it needs the `ID3` marker, a ten-byte
/// header and the whole body; it is the bytes of header and body, and the frames of the body.
pub open spec fn id3_from_data(d: Seq<u8>) -> Option<(Seq<u8>, Seq<Id3FrameV>)> {
    if d.len() < 10 || !(d[0] == 0x49 && d[1] == 0x44 && d[2] == 0x33) {
        None
    } else if d.len() < 10 + id3_size(d) {
        None
    } else {
        Some((d.take(10 + id3_size(d)), id3_frames(d.subrange(10, 10 + id3_size(d)))))
    }
}

/// A tag size written as a "syncsafe" integer: four bytes of seven bits each.
pub open spec fn syncsafe_bytes(n: u32) -> Seq<u8> {
    seq![
        ((n >> 21u32) & 0x7fu32) as u8,
        ((n >> 14u32) & 0x7fu32) as u8,
        ((n >> 7u32) & 0x7fu32) as u8,
        (n & 0x7fu32) as u8,
    ]
}

/// The ten-byte header of an ID3v2 tag whose body has `size` bytes: the `ID3`
/// marker, the version bytes `v0` and `v1`, the flags and the syncsafe size.
pub open spec fn id3_header(v0: u8, v1: u8, flags: u8, size: u32) -> Seq<u8> {
    seq![0x49u8, 0x44u8, 0x33u8, v0, v1, flags] + syncsafe_bytes(size)
}

/// Reading a tag made of a header and a body of writable frames (then
/// nothing or padding, within the size the header gives), followed by any
/// other bytes, gives the tag's bytes and every one of its frames.
pub proof fn law_id3_tag_read_back(
    v0: u8,
    v1: u8,
    flags: u8,
    frames: Seq<(Seq<u8>, Seq<u8>)>,
    tail: Seq<u8>,
    after: Seq<u8>,
)
    requires
        forall|i: int| 0 <= i < frames.len() ==> writable_frame(#[trigger] frames[i]),
        frames_end(tail),
        frames_bytes(frames).len() + tail.len() < 0x1000_0000,
    ensures
        ({
            let body = frames_bytes(frames) + tail;
            let tag = id3_header(v0, v1, flags, body.len() as u32) + body;
            id3_from_data(tag + after) == Some(
                (
                    tag,
                    frames.map_values(
                        |f: (Seq<u8>, Seq<u8>)| Id3FrameV { id: utf8_lossy(f.0), data: f.1 },
                    ),
                ),
            )
        }),
{
    let body = frames_bytes(frames) + tail;
    let n = body.len() as u32;
    let tag = id3_header(v0, v1, flags, n) + body;
    let d = tag + after;
    let b0 = (n >> 21u32) & 0x7fu32;
    let b1 = (n >> 14u32) & 0x7fu32;
    let b2 = (n >> 7u32) & 0x7fu32;
    let b3 = n & 0x7fu32;
    assert(b0 < 128 && b1 < 128 && b2 < 128 && b3 < 128) by (bit_vector)
        requires
            b0 == (n >> 21u32) & 0x7fu32,
            b1 == (n >> 14u32) & 0x7fu32,
            b2 == (n >> 7u32) & 0x7fu32,
            b3 == n & 0x7fu32,
    ;
    assert(b0 * 2097152 + b1 * 16384 + b2 * 128 + b3 == n) by (bit_vector)
        requires
            b0 == (n >> 21u32) & 0x7fu32,
            b1 == (n >> 14u32) & 0x7fu32,
            b2 == (n >> 7u32) & 0x7fu32,
            b3 == n & 0x7fu32,
            n < 0x1000_0000u32,
    ;
    assert(d[6] as int == b0 as int && d[7] as int == b1 as int && d[8] as int == b2 as int
        && d[9] as int == b3 as int);
    assert(id3_size(d) == n);
    assert(d[0] == 0x49u8 && d[1] == 0x44u8 && d[2] == 0x33u8);
    assert(d.take(10 + n) =~= tag);
    assert(d.subrange(10, 10 + n) =~= body);
    law_id3_frames_read_back(frames, tail);
}

/// Where the first `emsg` box of some bytes is.
pub enum EmsgLocation {
    /// There is no `emsg` box
    Missing,
    /// The `emsg` box's size gives no contents within the data
    Malformed,
    /// The box's contents run from `start` to `end`
    Found(int, int),
}

/// Looks for an `emsg` box among the boxes that start at `off`: each box starts
/// with a 4-byte big-endian size and a 4-byte type; a size of 0 ends the search.
/// The contents of the box run to its size or to the end of the data, whichever
/// comes first.
pub open spec fn emsg_locate(d: Seq<u8>, off: int) -> EmsgLocation
    decreases d.len() - off,
{
    if off < 0 || off + 8 > d.len() {
        EmsgLocation::Missing
    } else {
        let size = be32(d, off);
        if d[off + 4] == 0x65 && d[off + 5] == 0x6d && d[off + 6] == 0x73 && d[off + 7] == 0x67 {
            let end = off + if size < d.len() {
                size as int
            } else {
                d.len() as int
            };
            if size < 8 || end > d.len() {
                EmsgLocation::Malformed
            } else {
                EmsgLocation::Found(off + 8, end)
            }
        } else if size == 0 || off + size + 8 > d.len() {
            EmsgLocation::Missing
        } else {
            emsg_locate(d, off + size)
        }
    }
}

/// `i` is the position of the first zero byte of `s` at or after `start`.
pub open spec fn zero_from(s: Seq<u8>, start: int, i: int) -> bool {
    &&& start <= i < s.len()
    &&& s[i] == 0
    &&& forall|j: int| start <= j < i ==> s[j] != 0
}

/// The zero-terminated UTF-8 text of `d` that starts at `start`, and the
/// position after its terminator; `None` without a terminator or when the text is
/// not UTF-8.
pub open spec fn cstring_at(d: Seq<u8>, start: int) -> Option<(Seq<char>, int)> {
    if !(exists|i: int| zero_from(d, start, i)) {
        None
    } else {
        let i = choose|i: int| zero_from(d, start, i);
        if valid_utf8(d.subrange(start, i)) {
            Some((decode_utf8(d.subrange(start, i)), i + 1))
        } else {
            None
        }
    }
}

/// The event in the contents `b` of an `emsg` box (version 0 or 1).
pub open spec fn emsg_contents(b: Seq<u8>) -> Option<EmsgEventV> {
    if b.len() == 0 {
        None
    } else if b[0] == 0 {
        match cstring_at(b, 4) {
            None => None,
            Some((scheme, o1)) => match cstring_at(b, o1) {
                None => None,
                Some((value, o2)) => if o2 + 16 > b.len() {
                    None
                } else {
                    Some(
                        EmsgEventV {
                            scheme_id_uri: scheme,
                            value,
                            timescale: be32(b, o2) as u32,
                            presentation_time_delta: be32(b, o2 + 4) as u32,
                            event_duration: be32(b, o2 + 8) as u32,
                            id: be32(b, o2 + 12) as u32,
                            message_data: b.skip(o2 + 16),
                        },
                    )
                },
            },
        }
    } else if b[0] == 1 {
        if b.len() < 24 {
            None
        } else {
            match cstring_at(b, 24) {
                None => None,
                Some((scheme, o1)) => match cstring_at(b, o1) {
                    None => None,
                    Some((value, o2)) => Some(
                        EmsgEventV {
                            scheme_id_uri: scheme,
                            value,
                            timescale: be32(b, 4) as u32,
                            presentation_time_delta: 0,
                            event_duration: be32(b, 16) as u32,
                            id: be32(b, 20) as u32,
                            message_data: b.skip(o2),
                        },
                    ),
                },
            }
        }
    } else {
        None
    }
}

/// The event of the first `emsg` box in `d`.
pub open spec fn emsg_from_data(d: Seq<u8>) -> Option<EmsgEventV> {
    match emsg_locate(d, 0) {
        EmsgLocation::Found(s, e) => emsg_contents(d.subrange(s, e)),
        _ => None,
    }
}

/// Reading the `emsg` box of `d` would slice out of bounds: the box's size is
/// smaller than its header or runs past the data, or a version 0 box has fewer
/// than four bytes of contents.
pub open spec fn emsg_breaks(d: Seq<u8>) -> bool {
    match emsg_locate(d, 0) {
        EmsgLocation::Malformed => true,
        EmsgLocation::Found(s, e) => {
            let b = d.subrange(s, e);
            b.len() > 0 && b[0] == 0 && b.len() < 4
        },
        EmsgLocation::Missing => false,
    }
}

/// The views of a sequence of ID3 frames.
pub open spec fn id3_frame_views(v: Seq<Id3Frame>) -> Seq<Id3FrameV> {
    v.map_values(|f: Id3Frame| f@)
}

/// The big-endian 32-bit number at `i`.
fn read_be32(d: &[u8], i: usize) -> (r: u32)
    requires
        i + 4 <= d@.len(),
    ensures
        r == be32(d@, i as int),
{
    (d[i] as u32) * 16777216 + (d[i + 1] as u32) * 65536 + (d[i + 2] as u32) * 256 + (d[i + 3] as u32)
}

/// Whether an optional SCTE-35 payload reads without slicing through a character.
fn opt_hex_ok(p: &Option<String>) -> (r: bool)
    ensures
        r == (p.deep_view() matches Some(s) ==> !hex_lenient_breaks(s)),
{
    match p {
        Some(t) => {
            let cs = chars_of(t.as_str());
            !crate::hex::hex_lenient_would_break(cs.as_slice())
        },
        None => true,
    }
}

/// Whether reading the `emsg` box of `data` would slice out of bounds (see
/// [`MetadataParser::parse_emsg`]).
pub fn emsg_would_break(data: &[u8]) -> (r: bool)
    ensures
        r == emsg_breaks(data@),
{
    let n = data.len();
    let mut offset: usize = 0;
    loop
        invariant
            n == data@.len(),
            offset <= n,
            emsg_locate(data@, 0) == emsg_locate(data@, offset as int),
        decreases n - offset,
    {
        if n < 8 || offset > n - 8 {
            return false;
        }
        let size = read_be32(data, offset) as u64;
        let room = n - offset;
        if data[offset + 4] == 0x65 && data[offset + 5] == 0x6d && data[offset + 6] == 0x73
            && data[offset + 7] == 0x67 {
            let take: u64 = if size < n as u64 {
                size
            } else {
                n as u64
            };
            if size < 8 || take > room as u64 {
                return true;
            }
            let end = offset + take as usize;
            let b = &data[offset + 8..end];
            assert(b@ =~= data@.subrange(offset + 8, end as int));
            return b.len() > 0 && b[0] == 0 && b.len() < 4;
        }
        if size == 0 || size > (room - 8) as u64 {
            return false;
        }
        offset = offset + size as usize;
    }
}

/// Reads the zero-terminated UTF-8 text at `*offset` and moves `*offset` past its terminator.
pub fn read_null_terminated_string(data: &[u8], offset: &mut usize) -> (r: Option<String>)
    requires
        *old(offset) <= data@.len(),
    ensures
        match cstring_at(data@, *old(offset) as int) {
            Some((s, next)) => r.deep_view() == Some(s) && *final(offset) == next,
            None => r is None && *final(offset) == *old(offset),
        },
{
    let start = *offset;
    let n = data.len();
    let mut i: usize = start;
    while i < n && data[i] != 0
        invariant
            start <= i <= n,
            n == data@.len(),
            forall|j: int| start <= j < i ==> data@[j] != 0,
        decreases n - i,
    {
        i += 1;
    }
    if i == n {
        assert(!(exists|k: int| zero_from(data@, start as int, k)));
        return None;
    }
    assert(zero_from(data@, start as int, i as int));
    proof {
        let k = choose|k: int| zero_from(data@, start as int, k);
        if k < i {
            assert(data@[k] != 0);
        } else if i < k {
            assert(data@[i as int] != 0);
        }
    }
    let bytes = &data[start..i];
    match utf8_to_chars(bytes) {
        Some(cs) => {
            *offset = i + 1;
            Some(string_of(cs.as_slice()))
        },
        None => None,
    }
}

/// The frames of an ID3 tag body.
fn parse_id3_frames(d: &[u8]) -> (r: Vec<Id3Frame>)
    ensures
        id3_frame_views(r@) == id3_frames(d@),
{
    let mut frames: Vec<Id3Frame> = Vec::new();
    let mut rest: &[u8] = d;
    loop
        invariant
            id3_frame_views(frames@) + id3_frames(rest@) == id3_frames(d@),
        decreases rest@.len(),
    {
        let n = rest.len();
        if n < 10 || (rest[0] == 0 && rest[1] == 0 && rest[2] == 0 && rest[3] == 0) {
            assert(id3_frame_views(frames@) + id3_frames(rest@) =~= id3_frame_views(frames@));
            return frames;
        }
        let size = read_be32(rest, 4) as u64;
        if 10 + size > n as u64 {
            assert(id3_frame_views(frames@) + id3_frames(rest@) =~= id3_frame_views(frames@));
            return frames;
        }
        let end = 10 + size as usize;
        let id = utf8_lossy_chars(&rest[0..4]);
        let mut data: Vec<u8> = Vec::new();
        let body = &rest[10..end];
        let mut k: usize = 0;
        while k < body.len()
            invariant
                k <= body@.len(),
                data@ == body@.take(k as int),
            decreases body.len() - k,
        {
            data.push(body[k]);
            k += 1;
            assert(data@ =~= body@.take(k as int));
        }
        assert(body@.take(k as int) =~= body@);
        let frame = Id3Frame { id: string_of(id.as_slice()), data };
        let ghost before = frames@;
        frames.push(frame);
        let next = &rest[end..n];
        proof {
            assert(rest@.subrange(0, 4) =~= rest@.take(4));
            assert(next@ =~= rest@.skip(end as int));
            assert(id3_frame_views(frames@) =~= id3_frame_views(before).push(frame@));
            assert(frame@ == Id3FrameV { id: utf8_lossy(rest@.take(4)), data: rest@.subrange(10, end as int) });
            assert(id3_frame_views(frames@) + id3_frames(next@) =~= id3_frame_views(before) + id3_frames(rest@));
        }
        rest = next;
    }
}

/// A copy of some bytes.
fn bytes_of(b: &[u8]) -> (r: Vec<u8>)
    ensures
        r@ == b@,
{
    let mut out: Vec<u8> = Vec::new();
    let mut k: usize = 0;
    while k < b.len()
        invariant
            k <= b@.len(),
            out@ == b@.take(k as int),
        decreases b.len() - k,
    {
        out.push(b[k]);
        k += 1;
        assert(out@ =~= b@.take(k as int));
    }
    assert(b@.take(k as int) =~= b@);
    out
}

/// The event in the contents of an `emsg` box.
fn parse_emsg_box(b: &[u8]) -> (r: Option<EmsgEvent>)
    requires
        !(b@.len() > 0 && b@[0] == 0 && b@.len() < 4),
    ensures
        match r {
            Some(e) => emsg_contents(b@) == Some(e@),
            None => emsg_contents(b@) is None,
        },
{
    let n = b.len();
    if n == 0 {
        return None;
    }
    if b[0] == 0 {
        let mut offset: usize = 4;
        let scheme = match read_null_terminated_string(b, &mut offset) {
            Some(s) => s,
            None => return None,
        };
        let value = match read_null_terminated_string(b, &mut offset) {
            Some(s) => s,
            None => return None,
        };
        if n - offset < 16 {
            return None;
        }
        let timescale = read_be32(b, offset);
        let delta = read_be32(b, offset + 4);
        let duration = read_be32(b, offset + 8);
        let id = read_be32(b, offset + 12);
        let message = bytes_of(&b[offset + 16..n]);
        assert(b@.subrange(offset + 16, n as int) =~= b@.skip(offset + 16));
        Some(
            EmsgEvent {
                scheme_id_uri: scheme,
                value,
                timescale,
                presentation_time_delta: delta,
                event_duration: duration,
                id,
                message_data: message,
            },
        )
    } else if b[0] == 1 {
        if n < 24 {
            return None;
        }
        let timescale = read_be32(b, 4);
        let duration = read_be32(b, 16);
        let id = read_be32(b, 20);
        let mut offset: usize = 24;
        let scheme = match read_null_terminated_string(b, &mut offset) {
            Some(s) => s,
            None => return None,
        };
        let value = match read_null_terminated_string(b, &mut offset) {
            Some(s) => s,
            None => return None,
        };
        let message = bytes_of(&b[offset..n]);
        assert(b@.subrange(offset as int, n as int) =~= b@.skip(offset as int));
        Some(
            EmsgEvent {
                scheme_id_uri: scheme,
                value,
                timescale,
                presentation_time_delta: 0,
                event_duration: duration,
                id,
                message_data: message,
            },
        )
    } else {
        None
    }
}

/// Timed metadata found in a segment.
#[derive(Clone, Debug)]
pub enum MetadataType {
    Id3(Id3Sample),
    Emsg(EmsgEvent),
    DateRange(DateRange),
}

/// `d` is the metadata event for the date range tag `t`: the same fields, the
/// SCTE-35 payloads read as hexadecimal bytes, and the client attributes listed
/// once per name with their values.
pub open spec fn date_range_event(d: DateRange, t: DateRangeTagV) -> bool {
    &&& d.id@ == t.id
    &&& d.class.deep_view() == t.class
    &&& d.start_date@ == t.start_date
    &&& d.end_date.deep_view() == t.end_date
    &&& d.duration.deep_view() == t.duration
    &&& d.planned_duration.deep_view() == t.planned_duration
    &&& d.scte35_cmd.deep_view() == scte35_bytes(t.scte35_cmd)
    &&& d.scte35_out.deep_view() == scte35_bytes(t.scte35_out)
    &&& d.scte35_in.deep_view() == scte35_bytes(t.scte35_in)
    &&& d.end_on_next == t.end_on_next
    &&& forall|k: int|
        0 <= k < d.client_attributes@.len() ==> t.client_attributes.contains_key(
            (#[trigger] d.client_attributes@[k]).0@,
        ) && t.client_attributes[d.client_attributes@[k].0@]
            == d.client_attributes@[k].1@
    &&& forall|key: Seq<char>|
        t.client_attributes.contains_key(key) ==> exists|k: int|
            0 <= k < d.client_attributes@.len()
                && #[trigger] d.client_attributes@[k].0@ == key
}

/// Parser of timed metadata in HLS streams; holds the date ranges of the current playlist.
pub struct MetadataParser {
    date_ranges: Vec<DateRangeTag>,
}

/// None of the SCTE-35 payloads of a date range would be sliced through a character.
pub open spec fn scte35_readable(d: DateRangeTagV) -> bool {
    &&& d.scte35_cmd matches Some(s) ==> !hex_lenient_breaks(s)
    &&& d.scte35_out matches Some(s) ==> !hex_lenient_breaks(s)
    &&& d.scte35_in matches Some(s) ==> !hex_lenient_breaks(s)
}

/// The bytes of an optional SCTE-35 payload.
pub open spec fn scte35_bytes(s: Option<Seq<char>>) -> Option<Seq<u8>> {
    match s {
        Some(t) => Some(hex_lenient_from_text(t)),
        None => None,
    }
}

impl MetadataParser {
    /// The date ranges held, as plain values.
    pub closed spec fn ranges(&self) -> Seq<DateRangeTagV> {
        date_range_views(self.date_ranges@)
    }

    /// A parser holding no date ranges.
    pub fn new() -> (r: Self)
        ensures
            r.ranges() == Seq::<DateRangeTagV>::empty(),
    {
        let r = MetadataParser { date_ranges: Vec::new() };
        assert(r.ranges() =~= Seq::<DateRangeTagV>::empty());
        r
    }

    /// Parses the ID3 tag at the start of `data`.
    pub fn parse_id3(&self, data: &[u8]) -> (r: Option<Id3Sample>)
        ensures
            match r {
                Some(s) => id3_from_data(data@) == Some((s.data@, id3_frame_views(s.frames@))),
                None => id3_from_data(data@) is None,
            },
    {
        let n = data.len();
        if n < 10 {
            return None;
        }
        if !(data[0] == 0x49 && data[1] == 0x44 && data[2] == 0x33) {
            return None;
        }
        let size = (data[6] % 128) as u64 * 2097152 + (data[7] % 128) as u64 * 16384 + (data[8] % 128)
            as u64 * 128 + (data[9] % 128) as u64;
        assert(size == id3_size(data@));
        if (n as u64) < 10 + size {
            return None;
        }
        let end = 10 + size as usize;
        let frames = parse_id3_frames(&data[10..end]);
        let bytes = bytes_of(&data[0..end]);
        assert(data@.subrange(0, end as int) =~= data@.take(end as int));
        Some(Id3Sample { data: bytes, frames })
    }

    /// Parses the first EMSG box of CMAF/fMP4 segment data.
    pub fn parse_emsg(&self, data: &[u8]) -> (r: Option<EmsgEvent>)
        requires
            !emsg_breaks(data@),
        ensures
            match r {
                Some(e) => emsg_from_data(data@) == Some(e@),
                None => emsg_from_data(data@) is None,
            },
    {
        let n = data.len();
        let mut offset: usize = 0;
        loop
            invariant
                n == data@.len(),
                offset <= n,
                !emsg_breaks(data@),
                emsg_locate(data@, 0) == emsg_locate(data@, offset as int),
            decreases n - offset,
        {
            if n < 8 || offset > n - 8 {
                return None;
            }
            let size = read_be32(data, offset) as u64;
            let room = n - offset;
            if data[offset + 4] == 0x65 && data[offset + 5] == 0x6d && data[offset + 6] == 0x73
                && data[offset + 7] == 0x67 {
                let take: u64 = if size < n as u64 {
                    size
                } else {
                    n as u64
                };
                if size < 8 || take > room as u64 {
                    return None;
                }
                let end = offset + take as usize;
                let b = &data[offset + 8..end];
                return parse_emsg_box(b);
            }
            if size == 0 || size > (room - 8) as u64 {
                return None;
            }
            offset = offset + size as usize;
        }
    }

    /// Replaces the date ranges with those of a newly loaded playlist.
    pub fn set_date_ranges(&mut self, ranges: Vec<DateRangeTag>)
        ensures
            final(self).ranges() == date_range_views(ranges@),
    {
        self.date_ranges = ranges;
    }

    /// Whether every SCTE-35 payload of the date ranges reads as hexadecimal
    /// without slicing through a character (see [`Self::active_date_ranges`]).
    pub fn scte35_readable_all(&self) -> (r: bool)
        ensures
            r == forall|i: int| 0 <= i < self.ranges().len() ==> scte35_readable(#[trigger] self.ranges()[i]),
    {
        let mut i: usize = 0;
        while i < self.date_ranges.len()
            invariant
                i <= self.date_ranges@.len(),
                forall|j: int| 0 <= j < i ==> scte35_readable(#[trigger] self.ranges()[j]),
            decreases self.date_ranges.len() - i,
        {
            let d = &self.date_ranges[i];
            assert(self.ranges()[i as int] == d@);
            if !opt_hex_ok(&d.scte35_cmd) || !opt_hex_ok(&d.scte35_out) || !opt_hex_ok(&d.scte35_in) {
                return false;
            }
            i += 1;
        }
        true
    }

    /// The date ranges, as metadata events: SCTE-35 payloads read as hexadecimal
    /// bytes, client attributes listed once per name.
    pub fn active_date_ranges(&self) -> (r: Vec<DateRange>)
        requires
            forall|i: int| 0 <= i < self.ranges().len() ==> scte35_readable(#[trigger] self.ranges()[i]),
        ensures
            r@.len() == self.ranges().len(),
            forall|i: int| 0 <= i < r@.len() ==> date_range_event(#[trigger] r@[i], self.ranges()[i]),
    {
        let mut out: Vec<DateRange> = Vec::new();
        let mut i: usize = 0;
        while i < self.date_ranges.len()
            invariant
                i <= self.date_ranges@.len(),
                out@.len() == i,
                forall|j: int| 0 <= j < self.ranges().len() ==> scte35_readable(#[trigger] self.ranges()[j]),
                forall|j: int| 0 <= j < i ==> date_range_event(#[trigger] out@[j], self.ranges()[j]),
            decreases self.date_ranges.len() - i,
        {
            let t = &self.date_ranges[i];
            assert(self.ranges()[i as int] == t@);
            let ca = t.client_attributes.entries();
            assert forall|key: Seq<char>|
                t.client_attributes@.contains_key(key) implies exists|k: int|
                    0 <= k < ca@.len() && #[trigger] ca@[k].0@ == key by {
                assert(t.client_attributes@.contains_key(key));
            }
            let d = DateRange {
                id: t.id.clone(),
                class: copy_opt(&t.class),
                start_date: t.start_date.clone(),
                end_date: copy_opt(&t.end_date),
                duration: copy_opt(&t.duration),
                planned_duration: copy_opt(&t.planned_duration),
                scte35_cmd: scte35_of(&t.scte35_cmd),
                scte35_out: scte35_of(&t.scte35_out),
                scte35_in: scte35_of(&t.scte35_in),
                end_on_next: t.end_on_next,
                client_attributes: ca,
            };
            let ghost before = out@;
            let ghost dv = d;
            let ghost tv = self.ranges()[i as int];
            assert(tv.client_attributes == t.client_attributes@);
            assert(forall|k: int|
                0 <= k < dv.client_attributes@.len() ==> tv.client_attributes.contains_key(
                    (#[trigger] dv.client_attributes@[k]).0@,
                ) && tv.client_attributes[dv.client_attributes@[k].0@]
                    == dv.client_attributes@[k].1@);
            assert forall|key: Seq<char>|
                tv.client_attributes.contains_key(key) implies exists|k: int|
                    0 <= k < dv.client_attributes@.len()
                        && #[trigger] dv.client_attributes@[k].0@ == key by {
                assert(t.client_attributes@.contains_key(key));
                let k = choose|k: int| 0 <= k < ca@.len() && #[trigger] ca@[k].0@ == key;
                assert(dv.client_attributes@[k] == ca@[k]);
            }
            assert(date_range_event(dv, tv));
            out.push(d);
            assert(out@[i as int] == dv);
            assert(forall|j: int| 0 <= j < i ==> out@[j] == before[j]);
            i += 1;
        }
        out
    }

    /// The timed metadata in segment data: an ID3 tag at its start, then its first EMSG box.
    pub fn parse_segment_metadata(&self, data: &[u8]) -> (r: Vec<MetadataType>)
        requires
            !emsg_breaks(data@),
        ensures
            r@.len() == (if id3_from_data(data@) is Some { 1int } else { 0int }) + (if emsg_from_data(
                data@,
            ) is Some {
                1int
            } else {
                0int
            }),
            id3_from_data(data@) matches Some((bytes, frames)) ==> (r@[0] matches MetadataType::Id3(s)
                && s.data@ == bytes && id3_frame_views(s.frames@) == frames),
            emsg_from_data(data@) matches Some(ev) ==> (r@[r@.len() - 1] matches MetadataType::Emsg(e)
                && e@ == ev),
    {
        let mut out: Vec<MetadataType> = Vec::new();
        match self.parse_id3(data) {
            Some(s) => out.push(MetadataType::Id3(s)),
            None => {},
        }
        match self.parse_emsg(data) {
            Some(e) => out.push(MetadataType::Emsg(e)),
            None => {},
        }
        out
    }

    /// Forgets the date ranges.
    pub fn reset(&mut self)
        ensures
            final(self).ranges() == Seq::<DateRangeTagV>::empty(),
    {
        self.date_ranges.clear();
        assert(self.ranges() =~= Seq::<DateRangeTagV>::empty());
    }
}

/// The bytes of an optional SCTE-35 payload.
fn scte35_of(s: &Option<String>) -> (r: Option<Vec<u8>>)
    requires
        s.deep_view() matches Some(t) ==> !hex_lenient_breaks(t),
    ensures
        r.deep_view() == scte35_bytes(s.deep_view()),
{
    match s {
        Some(t) => {
            let cs = chars_of(t.as_str());
            let b = parse_hex(cs.as_slice());
            assert(b.deep_view() =~= b@);
            Some(b)
        },
        None => None,
    }
}

impl Default for MetadataParser {
    /// A parser holding no date ranges.
    fn default() -> (r: Self)
        ensures
            r.ranges() == Seq::<DateRangeTagV>::empty(),
    {
        MetadataParser::new()
    }
}

/// SAMPLE-AES decryptor for MPEG-2 TS segments. Decryption is not performed:
/// the segments pass through unchanged.
pub struct SampleAesDecryptor {
    /// AES key (16 bytes)
    key: Vec<u8>,
    /// Initialization vector (16 bytes)
    iv: Vec<u8>,
}

impl SampleAesDecryptor {
    /// The key.
    pub closed spec fn key(&self) -> Seq<u8> {
        self.key@
    }

    /// The initialization vector.
    pub closed spec fn iv(&self) -> Seq<u8> {
        self.iv@
    }

    /// A decryptor for the key and initialization vector.
    pub fn new(key: Vec<u8>, iv: Vec<u8>) -> (r: Self)
        ensures
            r.key() == key@,
            r.iv() == iv@,
    {
        SampleAesDecryptor { key, iv }
    }

    /// The segment, which passes through unchanged.
    pub fn decrypt_ts(&self, data: &[u8]) -> (r: Result<Vec<u8>, String>)
        ensures
            r matches Ok(d) && d@ == data@,
    {
        Ok(bytes_of(data))
    }

    /// The block, which passes through unchanged.
    pub fn decrypt_block(&self, encrypted: &[u8]) -> (r: Result<Vec<u8>, String>)
        ensures
            r matches Ok(d) && d@ == encrypted@,
    {
        Ok(bytes_of(encrypted))
    }
}

} // verus!
