//! The small status decisions of the library cards and the password dialog:
//! which processing badge a card shows, whether its cache badge shows, and
//! what a password submission does, where the session stands, when the
//! listing refreshes itself, and the progress bars' labels.
use crate::api::AuthStatus;
use crate::models::{filter_active, MetadataFilter, SortBy};
use crate::text::{chars_of, decimal, decimal_chars, eq_str, push_chars, push_str};
use vstd::prelude::*;

verus! {

/// The processing badge of a card.
#[derive(Clone, Copy, Debug, PartialEq, Eq, Structural)]
pub enum ProcessingBadge {
    /// Fully processed.
    Processed,
    /// A background worker is at it.
    Processing,
    /// Awaiting processing.
    Pending,
    /// No badge.
    Hidden,
}

/// Whether a worker reports `current` as the item it works on and that item
/// is `id`.
pub open spec fn works_on(current: Option<Seq<char>>, id: Seq<char>) -> bool {
    current == Some(id)
}

/// The badge of the card of item `id`: "processing" while one of the workers
/// (thumbnails, sprites, pre-cache) reports working on it, whatever the
/// server last said; else the status the server last gave, if it is one the
/// card knows.
pub open spec fn badge_for(
    id: Seq<char>,
    thumb: Option<Seq<char>>,
    sprite: Option<Seq<char>>,
    precache: Option<Seq<char>>,
    fetched: Option<Seq<char>>,
) -> ProcessingBadge {
    if works_on(thumb, id) || works_on(sprite, id) || works_on(precache, id) {
        ProcessingBadge::Processing
    } else {
        match fetched {
            Some(s) => if s == "processed"@ {
                ProcessingBadge::Processed
            } else if s == "processing"@ {
                ProcessingBadge::Processing
            } else if s == "pending"@ {
                ProcessingBadge::Pending
            } else {
                ProcessingBadge::Hidden
            },
            None => ProcessingBadge::Hidden,
        }
    }
}

/// The view of an optional text.
pub open spec fn opt_view(o: Option<&str>) -> Option<Seq<char>> {
    match o {
        Some(s) => Some(s@),
        None => None,
    }
}

/// Whether the worker's current item is `id`.
fn is_current(current: Option<&str>, id: &[char]) -> (r: bool)
    ensures
        r == works_on(opt_view(current), id@),
{
    match current {
        Some(c) => {
            let k = chars_of(c);
            let b = crate::text::eq_chars(k.as_slice(), id);
            b
        },
        None => false,
    }
}

/// The processing badge of the card of item `id`, from the items the three
/// workers report working on and the status the server last gave.
pub fn processing_badge(
    id: &str,
    thumb_current: Option<&str>,
    sprite_current: Option<&str>,
    precache_current: Option<&str>,
    fetched: Option<&str>,
) -> (r: ProcessingBadge)
    ensures
        r == badge_for(
            id@,
            opt_view(thumb_current),
            opt_view(sprite_current),
            opt_view(precache_current),
            opt_view(fetched),
        ),
{
    let idc = chars_of(id);
    let i = idc.as_slice();
    if is_current(thumb_current, i) || is_current(sprite_current, i) || is_current(
        precache_current,
        i,
    ) {
        return ProcessingBadge::Processing;
    }
    match fetched {
        Some(s) => {
            let k = chars_of(s);
            let t = k.as_slice();
            if eq_str(t, "processed") {
                ProcessingBadge::Processed
            } else if eq_str(t, "processing") {
                ProcessingBadge::Processing
            } else if eq_str(t, "pending") {
                ProcessingBadge::Pending
            } else {
                ProcessingBadge::Hidden
            }
        },
        None => ProcessingBadge::Hidden,
    }
}

/// While a worker reports working on an item, its card shows it as being
/// processed, whatever the server said before.
pub proof fn law_live_work_shows_processing(
    id: Seq<char>,
    thumb: Option<Seq<char>>,
    sprite: Option<Seq<char>>,
    precache: Option<Seq<char>>,
    fetched: Option<Seq<char>>,
)
    requires
        works_on(thumb, id) || works_on(sprite, id) || works_on(precache, id),
    ensures
        badge_for(id, thumb, sprite, precache, fetched) == ProcessingBadge::Processing,
{
}

/// Whether a card shows the "fully cached" badge: only under the aggressive
/// cache strategy, once the server says every segment is cached.
pub fn cached_badge_shown(cache_strategy: &str, fully_cached: bool) -> (r: bool)
    ensures
        r == (cache_strategy@ == "aggressive"@ && fully_cached),
{
    let k = chars_of(cache_strategy);
    eq_str(k.as_slice(), "aggressive") && fully_cached
}

/// What submitting the password dialog does.
#[derive(Clone, Copy, Debug, PartialEq, Eq, Structural)]
pub enum PasswordSubmit {
    /// Nothing is sent: the password is empty.
    Empty,
    /// Log in with the password.
    Login,
    /// Set the password (with its confirmation).
    SetPassword,
}

/// The message shown when the password is empty.
pub fn empty_password_message() -> (r: &'static str)
    ensures
        r@ == "Password cannot be empty"@,
{
    "Password cannot be empty"
}

/// What a submission of `password` does: nothing for an empty password;
/// else a login when a password is already set, or setting the password when
/// none is.
pub fn password_submit(password: &str, password_set: bool) -> (r: PasswordSubmit)
    ensures
        r == if password@.len() == 0 {
            PasswordSubmit::Empty
        } else if password_set {
            PasswordSubmit::Login
        } else {
            PasswordSubmit::SetPassword
        },
{
    if password.unicode_len() == 0 {
        PasswordSubmit::Empty
    } else if password_set {
        PasswordSubmit::Login
    } else {
        PasswordSubmit::SetPassword
    }
}

/// Where the session stands with the password protection.
#[derive(Clone, Copy, Debug, PartialEq, Eq, Structural)]
pub enum AuthState {
    /// The status is being asked for.
    Loading,
    /// No password protection: the library is open.
    Disabled,
    /// Protection is on and no password is set yet.
    NeedsSetup,
    /// Protection is on and the password is to be entered.
    Locked,
    /// The user is logged in.
    Authenticated,
}

/// The session state that the server's answer gives (`None`: it could not be
/// asked, which counts as no protection).
pub open spec fn auth_state_of(status: Option<AuthStatus>) -> AuthState {
    match status {
        Some(st) => if !st.password_protection {
            AuthState::Disabled
        } else if st.authenticated {
            AuthState::Authenticated
        } else if !st.password_set {
            AuthState::NeedsSetup
        } else {
            AuthState::Locked
        },
        None => AuthState::Disabled,
    }
}

/// The session state from the server's answer to the status request, or
/// from its absence when the request failed.
pub fn auth_state_for(status: Option<AuthStatus>) -> (r: AuthState)
    ensures
        r == auth_state_of(status),
{
    match status {
        Some(st) => if !st.password_protection {
            AuthState::Disabled
        } else if st.authenticated {
            AuthState::Authenticated
        } else if !st.password_set {
            AuthState::NeedsSetup
        } else {
            AuthState::Locked
        },
        None => AuthState::Disabled,
    }
}

/// Whether the periodic refresh of the listing runs: not during a scan, and
/// only while the listing shows everything in its default order (no search,
/// the newest first, no metadata filter), so that a filtered view is not
/// disturbed.
pub fn background_refresh_allowed(
    scanning: bool,
    query: &str,
    sort_by: SortBy,
    filter: &MetadataFilter,
) -> (r: bool)
    ensures
        r == (!scanning && query@.len() == 0 && sort_by == SortBy::DateAddedNewest
            && !filter_active(filter@)),
{
    !scanning && query.unicode_len() == 0 && sort_by == SortBy::DateAddedNewest
        && !filter.is_active()
}

/// The background job a progress bar reports on.
#[derive(Clone, Copy, Debug, PartialEq, Eq, Structural)]
pub enum ProgressKind {
    /// The media scan.
    Scan,
    /// The quick thumbnails.
    QuickThumbnails,
    /// The deep thumbnails.
    DeepThumbnails,
    /// The preview sprites.
    Sprites,
    /// The pre-cached segments.
    Segments,
}

/// The label of a progress bar that has a total: the counts, with the
/// job's wording.
pub open spec fn counted_label(kind: ProgressKind, current: nat, total: nat) -> Seq<char> {
    let counts = decimal(current) + " / "@ + decimal(total);
    match kind {
        ProgressKind::Scan => counts + " files"@,
        ProgressKind::QuickThumbnails => "Quick thumbnails: "@ + counts,
        ProgressKind::DeepThumbnails => "Deep thumbnails: "@ + counts,
        ProgressKind::Sprites => "Sprites: "@ + counts,
        ProgressKind::Segments => "Segments: "@ + counts,
    }
}

/// The label of a progress bar whose total is not known yet.
pub open spec fn waiting_label(kind: ProgressKind) -> Seq<char> {
    match kind {
        ProgressKind::Scan => "Counting files…"@,
        ProgressKind::QuickThumbnails | ProgressKind::DeepThumbnails => "Generating thumbnails…"@,
        ProgressKind::Sprites => "Generating sprites…"@,
        ProgressKind::Segments => "Pre-caching segments…"@,
    }
}

/// The label of a progress bar at `current` of `total`: the counts once the
/// total is known (above zero), else a waiting message.
pub fn progress_label(kind: ProgressKind, current: u32, total: u32) -> (r: String)
    ensures
        r@ == if total > 0 {
            counted_label(kind, current as nat, total as nat)
        } else {
            waiting_label(kind)
        },
{
    let mut out: Vec<char> = Vec::new();
    if total == 0 {
        match kind {
            ProgressKind::Scan => push_str(&mut out, "Counting files…"),
            ProgressKind::QuickThumbnails | ProgressKind::DeepThumbnails => push_str(
                &mut out,
                "Generating thumbnails…",
            ),
            ProgressKind::Sprites => push_str(&mut out, "Generating sprites…"),
            ProgressKind::Segments => push_str(&mut out, "Pre-caching segments…"),
        }
        assert(out@ =~= waiting_label(kind));
    } else {
        match kind {
            ProgressKind::Scan => {},
            ProgressKind::QuickThumbnails => push_str(&mut out, "Quick thumbnails: "),
            ProgressKind::DeepThumbnails => push_str(&mut out, "Deep thumbnails: "),
            ProgressKind::Sprites => push_str(&mut out, "Sprites: "),
            ProgressKind::Segments => push_str(&mut out, "Segments: "),
        }
        let ghost prefix = out@;
        let c = decimal_chars(current as u64);
        push_chars(&mut out, c.as_slice());
        push_str(&mut out, " / ");
        let t = decimal_chars(total as u64);
        push_chars(&mut out, t.as_slice());
        let ghost counts = decimal(current as nat) + " / "@ + decimal(total as nat);
        assert(out@ =~= prefix + counts);
        if kind == ProgressKind::Scan {
            push_str(&mut out, " files");
        }
        assert(out@ =~= counted_label(kind, current as nat, total as nat));
    }
    crate::text::string_of(out.as_slice())
}

} // verus!
