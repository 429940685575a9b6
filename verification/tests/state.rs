use sc2_replay_fixer::autostart::set_auto_start;
use sc2_replay_fixer::config::{add_log, set_replay_dir, set_watcher_running};
use sc2_replay_fixer::message::{AppMessage, AppState};
use sc2_replay_fixer::paths::{join_path, str_contains, str_eq};
use sc2_replay_fixer::utils::is_multiplayer_replay_dir;

#[test]
fn test_process_message_updates_state() {
    let mut state = AppState::default();
    assert!(!state.auto_fix);
    assert!(!state.watcher_running);
    assert!(state.log.is_empty());

    state.process_message(AppMessage::SetReplayDir(String::from("replays")));
    assert_eq!(state.replay_dir, String::from("replays"));
    assert_eq!(state.log.len(), 1);
    assert_eq!(state.log[0], String::from("[dir] selected: replays"));

    state.process_message(AppMessage::AddLog(String::from("hello")));
    assert_eq!(state.log.len(), 2);
    assert_eq!(state.log[1], String::from("hello"));

    state.process_message(AppMessage::SetWatcherRunning(true));
    assert!(state.watcher_running);
    state.process_message(AppMessage::ToggleAutoFix(true));
    assert!(state.auto_fix);
    state.process_message(AppMessage::ToggleAutoStart(true));
    assert!(state.auto_start);
    state.process_message(AppMessage::Noop);
    assert_eq!(state.log.len(), 2);
}

#[test]
fn test_log_keeps_newest_two_hundred_lines() {
    let mut state = AppState::default();
    let mut i: usize = 0;
    while i < 205 {
        add_log(&mut state, format!("line {}", i));
        i += 1;
    }
    assert_eq!(state.log.len(), 200);
    assert_eq!(state.log[0], String::from("line 5"));
    assert_eq!(state.log[199], String::from("line 204"));
}

#[test]
fn test_config_setters() {
    let mut state = AppState::default();
    set_replay_dir(&mut state, String::from("a/b"));
    assert_eq!(state.replay_dir, String::from("a/b"));
    set_watcher_running(&mut state, true);
    assert!(state.watcher_running);
    set_watcher_running(&mut state, false);
    assert!(!state.watcher_running);
}

#[test]
fn test_set_auto_start_accepts_request() {
    assert!(set_auto_start(true).is_ok());
    assert!(set_auto_start(false).is_ok());
}

#[test]
fn test_join_path() {
    assert_eq!(join_path("a", "b"), String::from("a/b"));
    assert_eq!(join_path("a/", "b"), String::from("a/b"));
    assert_eq!(
        join_path("/home/me/Documents", "StarCraft II"),
        String::from("/home/me/Documents/StarCraft II")
    );
}

#[test]
fn test_string_helpers() {
    assert!(str_eq("abc", "abc"));
    assert!(!str_eq("abc", "abd"));
    assert!(!str_eq("abc", "ab"));
    assert!(str_contains("name-FIXED.SC2Replay", "-FIXED"));
    assert!(!str_contains("name.SC2Replay", "-FIXED"));
    assert!(str_contains("anything", ""));
}

#[test]
fn test_is_multiplayer_replay_dir() {
    assert!(is_multiplayer_replay_dir(
        "Documents/StarCraft II/Accounts/123/456/Replays/Multiplayer"
    ));
    assert!(is_multiplayer_replay_dir("Replays/Multiplayer"));
    assert!(!is_multiplayer_replay_dir("Replays/Singleplayer"));
    assert!(!is_multiplayer_replay_dir("Multiplayer"));
    assert!(!is_multiplayer_replay_dir("Other/Multiplayer"));
}

#[test]
fn test_find_sc2_replay_dir() {
    let dir = sc2_replay_fixer::utils::find_sc2_replay_dir();
    println!("replay directory found: {:?}", dir);

    if let Some(path) = dir {
        assert!(path.contains("StarCraft II"));
        assert!(path.ends_with("Multiplayer"));
    }
}

#[test]
fn test_find_all_replay_dirs() {
    let dirs = sc2_replay_fixer::utils::find_all_replay_dirs();
    println!("all replay directories found: {:?}", dirs);

    for dir in dirs {
        assert!(dir.ends_with("Multiplayer"));
        let parent = &dir[..dir.len() - "/Multiplayer".len()];
        assert!(parent.ends_with("Replays"));
    }
}

#[test]
fn test_default_replay_dir_location() {
    // Machine dependent: the platform may define no documents directory.
    if let Some(p) = sc2_replay_fixer::config::find_sc2_replay_dir() {
        assert!(p.ends_with("/StarCraft II"));
    }
}
