//! The players' keyboard shortcuts and playback-speed steps.
use crate::text::{chars_of, eq_str, is_digit};
use vstd::prelude::*;

verus! {

/// What a key press asks of a player.
#[derive(Clone, Copy, Debug, PartialEq, Eq, Structural)]
pub enum PlayerCommand {
    PlayPause,
    /// Seek back by this many seconds (not before the start).
    SeekBackward(u32),
    /// Seek ahead by this many seconds (not past the end).
    SeekForward(u32),
    VolumeUp,
    VolumeDown,
    ToggleMute,
    ToggleFullscreen,
    /// Seek to this many tenths of the duration.
    SeekToTenths(u32),
    SlowerSpeed,
    FasterSpeed,
    SeekToStart,
    SeekToEnd,
    /// Swipe view: show the next video.
    NextVideo,
    /// Swipe view: show the previous video.
    PreviousVideo,
    /// Swipe view: leave it.
    Close,
}

/// The full-screen player's shortcut for `key` (with Shift held or not).
pub open spec fn player_key(key: Seq<char>, shift: bool) -> Option<PlayerCommand> {
    if key == " "@ || key == "k"@ || key == "K"@ {
        Some(PlayerCommand::PlayPause)
    } else if key == "ArrowLeft"@ {
        Some(PlayerCommand::SeekBackward(if shift { 10 } else { 5 }))
    } else if key == "j"@ || key == "J"@ {
        Some(PlayerCommand::SeekBackward(10))
    } else if key == "ArrowRight"@ {
        Some(PlayerCommand::SeekForward(if shift { 10 } else { 5 }))
    } else if key == "l"@ || key == "L"@ {
        Some(PlayerCommand::SeekForward(10))
    } else if key == "ArrowUp"@ {
        Some(PlayerCommand::VolumeUp)
    } else if key == "ArrowDown"@ {
        Some(PlayerCommand::VolumeDown)
    } else if key == "m"@ || key == "M"@ {
        Some(PlayerCommand::ToggleMute)
    } else if key == "f"@ || key == "F"@ {
        Some(PlayerCommand::ToggleFullscreen)
    } else if key.len() == 1 && is_digit(key[0]) {
        Some(PlayerCommand::SeekToTenths((key[0] as u32 - '0' as u32) as u32))
    } else if key == "<"@ || key == ","@ {
        Some(PlayerCommand::SlowerSpeed)
    } else if key == ">"@ || key == "."@ {
        Some(PlayerCommand::FasterSpeed)
    } else if key == "Home"@ {
        Some(PlayerCommand::SeekToStart)
    } else if key == "End"@ {
        Some(PlayerCommand::SeekToEnd)
    } else {
        None
    }
}

/// The swipe view's shortcut for `key`.
pub open spec fn swipe_key(key: Seq<char>) -> Option<PlayerCommand> {
    if key == "ArrowDown"@ || key == "j"@ {
        Some(PlayerCommand::NextVideo)
    } else if key == "ArrowUp"@ || key == "k"@ {
        Some(PlayerCommand::PreviousVideo)
    } else if key == " "@ || key == "Spacebar"@ {
        Some(PlayerCommand::PlayPause)
    } else if key == "ArrowLeft"@ {
        Some(PlayerCommand::SeekBackward(10))
    } else if key == "ArrowRight"@ {
        Some(PlayerCommand::SeekForward(10))
    } else if key == "m"@ {
        Some(PlayerCommand::ToggleMute)
    } else if key == "Escape"@ {
        Some(PlayerCommand::Close)
    } else {
        None
    }
}

/// The full-screen player's shortcut for the key named `key` (as the
/// browser's `KeyboardEvent.key` names it), Shift held or not; `None` for a
/// key without one.
pub fn player_key_command(key: &str, shift: bool) -> (r: Option<PlayerCommand>)
    ensures
        r == player_key(key@, shift),
{
    let k = chars_of(key);
    let s = k.as_slice();
    if eq_str(s, " ") || eq_str(s, "k") || eq_str(s, "K") {
        Some(PlayerCommand::PlayPause)
    } else if eq_str(s, "ArrowLeft") {
        Some(PlayerCommand::SeekBackward(if shift { 10 } else { 5 }))
    } else if eq_str(s, "j") || eq_str(s, "J") {
        Some(PlayerCommand::SeekBackward(10))
    } else if eq_str(s, "ArrowRight") {
        Some(PlayerCommand::SeekForward(if shift { 10 } else { 5 }))
    } else if eq_str(s, "l") || eq_str(s, "L") {
        Some(PlayerCommand::SeekForward(10))
    } else if eq_str(s, "ArrowUp") {
        Some(PlayerCommand::VolumeUp)
    } else if eq_str(s, "ArrowDown") {
        Some(PlayerCommand::VolumeDown)
    } else if eq_str(s, "m") || eq_str(s, "M") {
        Some(PlayerCommand::ToggleMute)
    } else if eq_str(s, "f") || eq_str(s, "F") {
        Some(PlayerCommand::ToggleFullscreen)
    } else if s.len() == 1 && '0' <= s[0] && s[0] <= '9' {
        Some(PlayerCommand::SeekToTenths(s[0] as u32 - '0' as u32))
    } else if eq_str(s, "<") || eq_str(s, ",") {
        Some(PlayerCommand::SlowerSpeed)
    } else if eq_str(s, ">") || eq_str(s, ".") {
        Some(PlayerCommand::FasterSpeed)
    } else if eq_str(s, "Home") {
        Some(PlayerCommand::SeekToStart)
    } else if eq_str(s, "End") {
        Some(PlayerCommand::SeekToEnd)
    } else {
        None
    }
}

/// The swipe view's shortcut for the key named `key`; `None` for a key
/// without one.
pub fn swipe_key_command(key: &str) -> (r: Option<PlayerCommand>)
    ensures
        r == swipe_key(key@),
{
    let k = chars_of(key);
    let s = k.as_slice();
    if eq_str(s, "ArrowDown") || eq_str(s, "j") {
        Some(PlayerCommand::NextVideo)
    } else if eq_str(s, "ArrowUp") || eq_str(s, "k") {
        Some(PlayerCommand::PreviousVideo)
    } else if eq_str(s, " ") || eq_str(s, "Spacebar") {
        Some(PlayerCommand::PlayPause)
    } else if eq_str(s, "ArrowLeft") {
        Some(PlayerCommand::SeekBackward(10))
    } else if eq_str(s, "ArrowRight") {
        Some(PlayerCommand::SeekForward(10))
    } else if eq_str(s, "m") {
        Some(PlayerCommand::ToggleMute)
    } else if eq_str(s, "Escape") {
        Some(PlayerCommand::Close)
    } else {
        None
    }
}

/// The playback speeds offered, in hundredths of the normal speed, slowest
/// first.
pub open spec fn speeds() -> Seq<u32> {
    seq![25, 50, 75, 100, 125, 150, 175, 200, 300]
}

/// The speed one step from `pct` (faster or slower) in the list of speeds;
/// `None` at either end of the list or when `pct` is not in it.
pub open spec fn speed_step(pct: u32, faster: bool) -> Option<u32> {
    if speeds().contains(pct) {
        let i = speeds().index_of(pct);
        if faster {
            if i + 1 < speeds().len() {
                Some(speeds()[i + 1])
            } else {
                None
            }
        } else {
            if i > 0 {
                Some(speeds()[i - 1])
            } else {
                None
            }
        }
    } else {
        None
    }
}

/// The list of speeds, as a vector.
fn speed_list() -> (r: Vec<u32>)
    ensures
        r@ == speeds(),
{
    let r: Vec<u32> = vec![25, 50, 75, 100, 125, 150, 175, 200, 300];
    assert(r@ =~= speeds());
    r
}

/// The speed one step faster or slower than `pct` (hundredths of the normal
/// speed) among the offered speeds; `None` at either end, or when `pct` is
/// not one of them.
pub fn step_speed(pct: u32, faster: bool) -> (r: Option<u32>)
    ensures
        r == speed_step(pct, faster),
{
    let list = speed_list();
    let ghost s = speeds();
    assert(forall|a: int, b: int| 0 <= a < b < s.len() ==> s[a] < s[b]);
    let mut i: usize = 0;
    while i < list.len()
        invariant
            list@ == s,
            s == speeds(),
            i <= s.len(),
            forall|j: int| 0 <= j < i ==> s[j] != pct,
        decreases list.len() - i,
    {
        if list[i] == pct {
            proof {
                assert(s[i as int] == pct);
                assert(s.contains(pct));
                let k = s.index_of(pct);
                assert(s[k] == pct);
                assert(k == i);
            }
            if faster {
                if i + 1 < list.len() {
                    return Some(list[i + 1]);
                } else {
                    return None;
                }
            } else {
                if i > 0 {
                    return Some(list[i - 1]);
                } else {
                    return None;
                }
            }
        }
        i += 1;
    }
    proof {
        assert(!s.contains(pct));
    }
    None
}

/// A step faster and then a step slower (or the other way) comes back to
/// the speed one started from, whenever the first step was possible.
pub proof fn law_speed_steps_undo(pct: u32, faster: bool)
    requires
        speed_step(pct, faster) is Some,
    ensures
        speed_step(speed_step(pct, faster)->0, !faster) == Some(pct),
{
    let s = speeds();
    assert(forall|a: int, b: int| 0 <= a < b < s.len() ==> s[a] < s[b]);
    let i = s.index_of(pct);
    let q = speed_step(pct, faster)->0;
    let j = if faster { i + 1 } else { i - 1 };
    assert(s[j] == q);
    assert(s.contains(q));
    assert(s.index_of(q) == j);
}

} // verus!
