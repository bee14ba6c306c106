use starfin::player::{player_key_command, step_speed, swipe_key_command, PlayerCommand};

#[test]
fn player_shortcuts() {
    assert_eq!(player_key_command(" ", false), Some(PlayerCommand::PlayPause));
    assert_eq!(player_key_command("K", false), Some(PlayerCommand::PlayPause));
    assert_eq!(player_key_command("ArrowLeft", false), Some(PlayerCommand::SeekBackward(5)));
    assert_eq!(player_key_command("ArrowLeft", true), Some(PlayerCommand::SeekBackward(10)));
    assert_eq!(player_key_command("j", false), Some(PlayerCommand::SeekBackward(10)));
    assert_eq!(player_key_command("ArrowRight", false), Some(PlayerCommand::SeekForward(5)));
    assert_eq!(player_key_command("ArrowRight", true), Some(PlayerCommand::SeekForward(10)));
    assert_eq!(player_key_command("L", true), Some(PlayerCommand::SeekForward(10)));
    assert_eq!(player_key_command("ArrowUp", false), Some(PlayerCommand::VolumeUp));
    assert_eq!(player_key_command("ArrowDown", false), Some(PlayerCommand::VolumeDown));
    assert_eq!(player_key_command("m", false), Some(PlayerCommand::ToggleMute));
    assert_eq!(player_key_command("F", false), Some(PlayerCommand::ToggleFullscreen));
    assert_eq!(player_key_command("0", false), Some(PlayerCommand::SeekToTenths(0)));
    assert_eq!(player_key_command("7", false), Some(PlayerCommand::SeekToTenths(7)));
    assert_eq!(player_key_command(",", false), Some(PlayerCommand::SlowerSpeed));
    assert_eq!(player_key_command(">", false), Some(PlayerCommand::FasterSpeed));
    assert_eq!(player_key_command("Home", false), Some(PlayerCommand::SeekToStart));
    assert_eq!(player_key_command("End", false), Some(PlayerCommand::SeekToEnd));
    assert_eq!(player_key_command("Escape", false), None);
    assert_eq!(player_key_command("10", false), None);
    assert_eq!(player_key_command("", false), None);
}

#[test]
fn swipe_shortcuts() {
    assert_eq!(swipe_key_command("ArrowDown"), Some(PlayerCommand::NextVideo));
    assert_eq!(swipe_key_command("j"), Some(PlayerCommand::NextVideo));
    assert_eq!(swipe_key_command("k"), Some(PlayerCommand::PreviousVideo));
    assert_eq!(swipe_key_command("Spacebar"), Some(PlayerCommand::PlayPause));
    assert_eq!(swipe_key_command("ArrowLeft"), Some(PlayerCommand::SeekBackward(10)));
    assert_eq!(swipe_key_command("ArrowRight"), Some(PlayerCommand::SeekForward(10)));
    assert_eq!(swipe_key_command("m"), Some(PlayerCommand::ToggleMute));
    assert_eq!(swipe_key_command("M"), None);
    assert_eq!(swipe_key_command("Escape"), Some(PlayerCommand::Close));
}

#[test]
fn speed_steps() {
    assert_eq!(step_speed(100, true), Some(125));
    assert_eq!(step_speed(100, false), Some(75));
    assert_eq!(step_speed(200, true), Some(300));
    assert_eq!(step_speed(300, true), None);
    assert_eq!(step_speed(25, false), None);
    assert_eq!(step_speed(25, true), Some(50));
    assert_eq!(step_speed(110, true), None);
    // a step and a step back
    assert_eq!(step_speed(step_speed(150, true).unwrap(), false), Some(150));
}
