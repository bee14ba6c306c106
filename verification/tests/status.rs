use starfin::api::AuthStatus;
use starfin::models::{MetadataFilter, SortBy};
use starfin::status::{
    auth_state_for, background_refresh_allowed, cached_badge_shown, empty_password_message,
    password_submit, processing_badge, progress_label, AuthState, PasswordSubmit,
    ProcessingBadge, ProgressKind,
};

#[test]
fn processing_badges() {
    assert_eq!(processing_badge("a", None, None, None, Some("processed")), ProcessingBadge::Processed);
    assert_eq!(processing_badge("a", None, None, None, Some("pending")), ProcessingBadge::Pending);
    assert_eq!(processing_badge("a", None, None, None, Some("processing")), ProcessingBadge::Processing);
    assert_eq!(processing_badge("a", None, None, None, Some("weird")), ProcessingBadge::Hidden);
    assert_eq!(processing_badge("a", None, None, None, None), ProcessingBadge::Hidden);
    // a worker on this item wins over the last fetched status
    assert_eq!(processing_badge("a", Some("a"), None, None, Some("processed")), ProcessingBadge::Processing);
    assert_eq!(processing_badge("a", None, Some("a"), None, None), ProcessingBadge::Processing);
    assert_eq!(processing_badge("a", None, None, Some("a"), Some("pending")), ProcessingBadge::Processing);
    // a worker on another item does not
    assert_eq!(processing_badge("a", Some("b"), Some("ab"), None, Some("pending")), ProcessingBadge::Pending);
}

#[test]
fn cache_badge() {
    assert!(cached_badge_shown("aggressive", true));
    assert!(!cached_badge_shown("aggressive", false));
    assert!(!cached_badge_shown("lazy", true));
    assert!(!cached_badge_shown("Aggressive", true));
}

#[test]
fn password_submissions() {
    assert_eq!(password_submit("", true), PasswordSubmit::Empty);
    assert_eq!(password_submit("", false), PasswordSubmit::Empty);
    assert_eq!(password_submit("s3cret", true), PasswordSubmit::Login);
    assert_eq!(password_submit("s3cret", false), PasswordSubmit::SetPassword);
    assert_eq!(empty_password_message(), "Password cannot be empty");
}

#[test]
fn session_states() {
    let st = |p: bool, s: bool, a: bool| AuthStatus { password_protection: p, password_set: s, authenticated: a };
    assert_eq!(auth_state_for(None), AuthState::Disabled);
    assert_eq!(auth_state_for(Some(st(false, true, false))), AuthState::Disabled);
    assert_eq!(auth_state_for(Some(st(true, true, true))), AuthState::Authenticated);
    assert_eq!(auth_state_for(Some(st(true, false, false))), AuthState::NeedsSetup);
    assert_eq!(auth_state_for(Some(st(true, true, false))), AuthState::Locked);
}

#[test]
fn background_refresh() {
    let none = MetadataFilter::default();
    assert!(background_refresh_allowed(false, "", SortBy::DateAddedNewest, &none));
    assert!(!background_refresh_allowed(true, "", SortBy::DateAddedNewest, &none));
    assert!(!background_refresh_allowed(false, "x", SortBy::DateAddedNewest, &none));
    assert!(!background_refresh_allowed(false, "", SortBy::NameAsc, &none));
    let mut fav = MetadataFilter::default();
    fav.only_favorites = true;
    assert!(!background_refresh_allowed(false, "", SortBy::DateAddedNewest, &fav));
}

#[test]
fn progress_labels() {
    assert_eq!(progress_label(ProgressKind::Scan, 3, 10), "3 / 10 files");
    assert_eq!(progress_label(ProgressKind::Scan, 0, 0), "Counting files…");
    assert_eq!(progress_label(ProgressKind::QuickThumbnails, 12, 140), "Quick thumbnails: 12 / 140");
    assert_eq!(progress_label(ProgressKind::DeepThumbnails, 0, 1), "Deep thumbnails: 0 / 1");
    assert_eq!(progress_label(ProgressKind::DeepThumbnails, 5, 0), "Generating thumbnails…");
    assert_eq!(progress_label(ProgressKind::Sprites, 7, 8), "Sprites: 7 / 8");
    assert_eq!(progress_label(ProgressKind::Sprites, 0, 0), "Generating sprites…");
    assert_eq!(progress_label(ProgressKind::Segments, 4294967295, 4294967295), "Segments: 4294967295 / 4294967295");
    assert_eq!(progress_label(ProgressKind::Segments, 1, 0), "Pre-caching segments…");
}
