use podsync::player::{HotkeyHandler, Loop, Model, PlayerCommand, Song, Status, UserEvent};
use std::collections::VecDeque;

fn model(files: &[&str], mode: Loop) -> Model {
    Model {
        playlist_items: files.iter().map(|f| Song { file: Some(f.to_string()) }).collect::<VecDeque<_>>(),
        loop_mode: mode,
        status: None,
        time_pos: 12,
        current_song: None,
    }
}

fn files(m: &Model) -> Vec<String> {
    m.playlist_items.iter().map(|s| s.file.clone().unwrap()).collect()
}

#[test]
fn next_rotates_playlist() {
    let mut m = model(&["a", "b", "c"], Loop::Playlist);
    assert_eq!(m.player_next(), Some("a".to_string()));
    assert_eq!(files(&m), vec!["b", "c", "a"]);
    assert_eq!(m.time_pos, 0);
    assert!(m.status == Some(Status::Running));
}

#[test]
fn next_in_queue_and_single_modes() {
    let mut q = model(&["a", "b"], Loop::Queue);
    assert_eq!(q.player_next(), Some("a".to_string()));
    assert_eq!(files(&q), vec!["b"]);
    let mut s = model(&["a", "b"], Loop::Single);
    assert_eq!(s.player_next(), Some("a".to_string()));
    assert_eq!(files(&s), vec!["a", "b"]);
    let mut empty = model(&[], Loop::Playlist);
    assert_eq!(empty.player_next(), None);
    assert_eq!(empty.time_pos, 12);
}

#[test]
fn previous_goes_back_one() {
    let mut m = model(&["b", "c", "a"], Loop::Playlist);
    assert_eq!(m.player_previous(), Some("c".to_string()));
    assert_eq!(files(&m), vec!["a", "b", "c"]);
    let mut q = model(&["a", "b"], Loop::Queue);
    assert_eq!(q.player_previous(), None);
    assert_eq!(files(&q), vec!["a", "b"]);
}

#[test]
fn toggle_pause() {
    let mut m = model(&["a"], Loop::Playlist);
    assert!(m.player_toggle_pause(true) == PlayerCommand::Resume);
    assert!(m.status == Some(Status::Running));
    assert!(m.player_toggle_pause(false) == PlayerCommand::Pause);
    assert!(m.status == Some(Status::Paused));
}

#[test]
fn hotkey_handler_asks_to_quit() {
    let mut h = HotkeyHandler::new();
    assert!(h.poll() == Some(UserEvent::QuitApp));
}
