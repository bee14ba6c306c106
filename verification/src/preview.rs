//! The hover preview of a library card: when the sprite sheet is fetched,
//! and which of its frames is drawn.
use vstd::prelude::*;

verus! {

/// Where the fetch of a card's sprite sheet stands.
#[derive(Clone, Copy, Debug, PartialEq, Eq, Structural)]
pub struct SpriteLoad {
    /// The sheet and its layout are at hand.
    pub loaded: bool,
    /// A fetch is under way.
    pub loading: bool,
    /// The sheet is not to be had (not made yet, or its fetch failed): no
    /// further fetch is made for this card.
    pub failed: bool,
}

/// What became of a step of the fetch.
#[derive(Clone, Copy, Debug, PartialEq, Eq, Structural)]
pub enum SpriteEvent {
    /// The server says the sheet is not made yet.
    NotReady,
    /// The status check itself failed (a network error).
    CheckFailed,
    /// The sheet's layout could not be fetched.
    InfoFailed,
    /// The image did not load in time.
    ImageTimedOut,
    /// The image loaded.
    ImageLoaded,
}

/// Whether a fetch starts: the pointer is over the card, and the sheet is
/// neither at hand, nor being fetched, nor known to be missing.
pub open spec fn fetch_due(s: SpriteLoad, hovering: bool) -> bool {
    hovering && !s.loaded && !s.loading && !s.failed
}

/// The state after a fetch ended with `e`: a failed status check leaves the
/// card free to try again on a later hover; a missing sheet, a failed layout
/// fetch or an image that did not load marks it failed; a loaded image makes
/// the sheet available.
pub open spec fn sprite_after(s: SpriteLoad, e: SpriteEvent) -> SpriteLoad {
    SpriteLoad {
        loaded: s.loaded || e == SpriteEvent::ImageLoaded,
        loading: false,
        failed: s.failed || e == SpriteEvent::NotReady || e == SpriteEvent::InfoFailed || e
            == SpriteEvent::ImageTimedOut,
    }
}

impl SpriteLoad {
    /// Nothing fetched yet.
    pub fn new() -> (r: SpriteLoad)
        ensures
            r == (SpriteLoad { loaded: false, loading: false, failed: false }),
    {
        SpriteLoad { loaded: false, loading: false, failed: false }
    }

    /// Whether a fetch starts now, the pointer being over the card or not.
    pub fn should_fetch(&self, hovering: bool) -> (r: bool)
        ensures
            r == fetch_due(*self, hovering),
    {
        hovering && !self.loaded && !self.loading && !self.failed
    }

    /// The state once a fetch has started.
    pub fn started(&self) -> (r: SpriteLoad)
        ensures
            r == (SpriteLoad { loaded: self.loaded, loading: true, failed: self.failed }),
    {
        SpriteLoad { loaded: self.loaded, loading: true, failed: self.failed }
    }

    /// The state after the fetch ended with `event`.
    pub fn after(&self, event: SpriteEvent) -> (r: SpriteLoad)
        ensures
            r == sprite_after(*self, event),
    {
        match event {
            SpriteEvent::NotReady | SpriteEvent::InfoFailed | SpriteEvent::ImageTimedOut => {
                SpriteLoad { loaded: self.loaded, loading: false, failed: true }
            },
            SpriteEvent::CheckFailed => {
                SpriteLoad { loaded: self.loaded, loading: false, failed: self.failed }
            },
            SpriteEvent::ImageLoaded => {
                SpriteLoad { loaded: true, loading: false, failed: self.failed }
            },
        }
    }
}

/// Of a fetch that was due, only a failed status check lets a later hover
/// fetch again; after any other outcome no hover does.
pub proof fn law_only_check_failures_retry(s: SpriteLoad, e: SpriteEvent, hovering: bool)
    requires
        fetch_due(s, true),
    ensures
        fetch_due(
            sprite_after(SpriteLoad { loaded: s.loaded, loading: true, failed: s.failed }, e),
            hovering,
        ) <==> (hovering && e == SpriteEvent::CheckFailed),
{
}

/// Once the sheet is known to be missing, it stays so whatever follows.
pub proof fn law_failure_is_final(s: SpriteLoad, e: SpriteEvent, hovering: bool)
    requires
        s.failed,
    ensures
        sprite_after(s, e).failed,
        !fetch_due(s, hovering),
{
}

/// The frame shown after `current` in a sheet of `total_frames` frames: the
/// frames are shown in turn, and after the last comes the first again.
pub fn next_frame(current: u32, total_frames: u32) -> (r: u32)
    requires
        total_frames > 0,
    ensures
        r == (current + 1) % (total_frames as int),
        r < total_frames,
{
    ((current as u64 + 1) % (total_frames as u64)) as u32
}

/// The frame shown after `steps` ticks of the frame timer, starting from the
/// first frame, in a sheet of `total` frames.
pub open spec fn frame_after(steps: nat, total: u32) -> nat
    decreases steps,
{
    if steps == 0 {
        0
    } else {
        ((frame_after((steps - 1) as nat, total) + 1) % (total as nat)) as nat
    }
}

/// The preview runs through the frames in turn from the first: after
/// `steps` ticks it shows frame `steps % total`, always a frame of the sheet.
pub proof fn law_frame_cycle(steps: nat, total: u32)
    requires
        total > 0,
    ensures
        frame_after(steps, total) == steps % (total as nat),
        frame_after(steps, total) < total,
    decreases steps,
{
    let t = total as nat;
    if steps > 0 {
        law_frame_cycle((steps - 1) as nat, total);
        let k = (steps - 1) as nat;
        assert(((k % t) + 1) % t == (k + 1) % t) by {
            if t > 1 {
                vstd::arithmetic::div_mod::lemma_add_mod_noop(k as int, 1, t as int);
                vstd::arithmetic::div_mod::lemma_small_mod(1, t);
            } else {
                vstd::arithmetic::div_mod::lemma_mod_bound(((k % t) + 1) as int, t as int);
                vstd::arithmetic::div_mod::lemma_mod_bound((k + 1) as int, t as int);
            }
        }
    }
    assert(steps % t < t) by {
        vstd::arithmetic::div_mod::lemma_mod_bound(steps as int, t as int);
    }
}

/// Where frame `idx` stands in a sheet of `columns` columns of frames of
/// `thumb_width` by `thumb_height` pixels: the pixel offset of its top-left
/// corner, frames running left to right, then top to bottom.
pub fn frame_origin(idx: u32, columns: u32, thumb_width: u32, thumb_height: u32) -> (r: (u32, u32))
    requires
        columns > 0,
        (idx % columns) * thumb_width <= u32::MAX,
        (idx / columns) * thumb_height <= u32::MAX,
    ensures
        r.0 == (idx % columns) * thumb_width,
        r.1 == (idx / columns) * thumb_height,
{
    let col = idx % columns;
    let row = idx / columns;
    (col * thumb_width, row * thumb_height)
}

/// A frame of a sheet of `columns` by `rows` frames is drawn from inside the
/// sheet: its rectangle ends within the sheet's width and height.
pub proof fn law_frame_inside_sheet(idx: u32, columns: u32, rows: u32, thumb_width: u32, thumb_height: u32)
    requires
        columns > 0,
        idx < columns * rows,
    ensures
        (idx % columns) * thumb_width + thumb_width <= columns * thumb_width,
        (idx / columns) * thumb_height + thumb_height <= rows * thumb_height,
{
    let c = columns as int;
    let i = idx as int;
    let col = i % c;
    let row = i / c;
    assert(0 <= col < c) by (nonlinear_arith)
        requires
            c > 0,
            col == i % c,
    ;
    assert(i == row * c + col) by (nonlinear_arith)
        requires
            c > 0,
            col == i % c,
            row == i / c,
    ;
    assert(row < rows) by (nonlinear_arith)
        requires
            c > 0,
            0 <= col < c,
            i == row * c + col,
            i < c * rows,
            i >= 0,
    ;
    assert(col * thumb_width + thumb_width <= c * thumb_width) by (nonlinear_arith)
        requires
            0 <= col < c,
            thumb_width >= 0,
    ;
    assert(row * thumb_height + thumb_height <= rows * thumb_height) by (nonlinear_arith)
        requires
            row < rows,
            thumb_height >= 0,
    ;
}

} // verus!
