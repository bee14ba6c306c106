use starfin::preview::{frame_origin, next_frame, SpriteEvent, SpriteLoad};

#[test]
fn sprite_fetch_states() {
    let s = SpriteLoad::new();
    assert!(!s.should_fetch(false));
    assert!(s.should_fetch(true));
    let l = s.started();
    assert!(l.loading);
    assert!(!l.should_fetch(true));
    // a failed status check: a later hover tries again
    let c = l.after(SpriteEvent::CheckFailed);
    assert!(!c.failed && !c.loading && c.should_fetch(true));
    // the sheet is not made yet: no more fetches
    for e in [SpriteEvent::NotReady, SpriteEvent::InfoFailed, SpriteEvent::ImageTimedOut] {
        let f = l.after(e);
        assert!(f.failed && !f.loading && !f.loaded);
        assert!(!f.should_fetch(true));
    }
    let ok = l.after(SpriteEvent::ImageLoaded);
    assert!(ok.loaded && !ok.loading && !ok.failed);
    assert!(!ok.should_fetch(true));
}

#[test]
fn sprite_frames() {
    assert_eq!(next_frame(0, 25), 1);
    assert_eq!(next_frame(24, 25), 0);
    assert_eq!(next_frame(0, 1), 0);
    let mut f = 0;
    for _ in 0..12 {
        f = next_frame(f, 12);
    }
    assert_eq!(f, 0);
    // 5 columns of 160 x 90 frames
    assert_eq!(frame_origin(0, 5, 160, 90), (0, 0));
    assert_eq!(frame_origin(4, 5, 160, 90), (640, 0));
    assert_eq!(frame_origin(7, 5, 160, 90), (320, 90));
    assert_eq!(frame_origin(24, 5, 160, 90), (640, 360));
}
