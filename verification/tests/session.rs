use wavnote::session::{App, AppState, Action, Command, compute_progress, SEEK_STEP_MS};

fn batch(names: &[&str]) -> App {
    App::new(names.iter().map(|n| n.to_string()).collect())
}

fn type_text(app: &mut App, text: &str) {
    for c in text.chars() {
        let action = app.handle_command(Command::InsertChar(c));
        assert!(matches!(action, Action::Nothing));
    }
}

#[test]
fn new_session_starts_at_first_file_asking_location() {
    let app = batch(&["a.wav", "b.wav"]);
    assert_eq!(app.current_file_index, 0);
    assert_eq!(app.state, AppState::AskingForLocation);
    assert_eq!(app.available_files.len(), 2);
    assert_eq!(app.metadata.len(), 2);
    assert!(!app.should_quit);
    assert!(app.input.is_empty());
}

#[test]
fn progress_is_zero_for_zero_total_and_clamped() {
    assert_eq!(compute_progress(1234, 0), 0);
    assert_eq!(compute_progress(500, 1000), 500);
    assert_eq!(compute_progress(1000, 1000), 1000);
    assert_eq!(compute_progress(2500, 1000), 1000);
    assert_eq!(compute_progress(0, 777), 0);
}

#[test]
fn tick_updates_position_and_progress_only() {
    let mut app = batch(&["a.wav"]);
    app.track_loaded(10_000, vec![1, 2, 3]);
    app.tick(2_500);
    assert_eq!(app.current_duration, 2_500);
    assert_eq!(app.progress, 250);
    assert_eq!(app.state, AppState::AskingForLocation);
    assert_eq!(app.waveform_data, vec![1, 2, 3]);
}

#[test]
fn seek_backward_clamps_at_track_start() {
    let mut app = batch(&["a.wav"]);
    app.track_loaded(60_000, Vec::new());
    app.tick(3_000);
    let action = app.handle_command(Command::SeekBackward);
    assert!(matches!(action, Action::SeekTo(0)));
}

#[test]
fn seek_moves_one_step_when_far_from_start() {
    let mut app = batch(&["a.wav"]);
    app.track_loaded(60_000, Vec::new());
    app.tick(12_000);
    let back = app.handle_command(Command::SeekBackward);
    assert!(matches!(back, Action::SeekTo(t) if t == 12_000 - SEEK_STEP_MS));
    let forward = app.handle_command(Command::SeekForward);
    assert!(matches!(forward, Action::SeekTo(t) if t == 12_000 + SEEK_STEP_MS));
}

#[test]
fn typing_and_backspace_edit_the_buffer() {
    let mut app = batch(&["a.wav"]);
    type_text(&mut app, "abc");
    assert_eq!(app.input.as_str(), "abc");
    app.handle_command(Command::Backspace);
    assert_eq!(app.input.as_str(), "ab");
    app.handle_command(Command::Backspace);
    app.handle_command(Command::Backspace);
    app.handle_command(Command::Backspace);
    assert_eq!(app.input.as_str(), "");
}

#[test]
fn quit_stops_the_session_without_saving_the_buffer() {
    let mut app = batch(&["a.wav"]);
    type_text(&mut app, "half typed");
    let action = app.handle_command(Command::Quit);
    assert!(matches!(action, Action::Nothing));
    assert!(app.should_quit);
    assert!(app.metadata[0].location.is_none());
    assert!(app.metadata[0].tags.is_empty());
}

#[test]
fn confirm_location_then_tags_advances_to_next_file() {
    let mut app = batch(&["a.wav", "b.wav"]);
    type_text(&mut app, " cliff side ");
    let first = app.handle_command(Command::Confirm);
    assert!(matches!(first, Action::Nothing));
    assert_eq!(app.state, AppState::AskingForTags);
    assert_eq!(app.input.as_str(), "");
    assert_eq!(app.metadata[0].location.as_deref(), Some("cliff side"));

    type_text(&mut app, "gulls, surf");
    let second = app.handle_command(Command::Confirm);
    assert!(matches!(second, Action::StartTrack(1)));
    assert_eq!(app.current_file_index, 1);
    assert_eq!(app.state, AppState::AskingForLocation);
    assert!(!app.should_quit);
    let expected: Vec<String> = vec!["gulls".to_string(), "surf".to_string()];
    assert_eq!(app.metadata[0].tags, expected);
}

#[test]
fn metadata_stays_aligned_with_files_under_deletion() {
    let mut app = batch(&["a.wav", "b.wav", "c.wav"]);
    assert_eq!(app.available_files.len(), app.metadata.len());
    let action = app.handle_command(Command::DeleteFile);
    assert!(matches!(action, Action::RemoveFile { ref path, resume } if path == "a.wav" && resume));
    assert_eq!(app.available_files.len(), 2);
    assert_eq!(app.available_files.len(), app.metadata.len());
    assert_eq!(app.current_file_index, 0);
    assert!(!app.should_quit);
}

#[test]
fn deleting_the_only_file_terminates_without_finalizing() {
    let mut app = batch(&["solo.wav"]);
    let action = app.handle_command(Command::DeleteFile);
    assert!(
        matches!(action, Action::RemoveFile { ref path, resume } if path == "solo.wav" && !resume)
    );
    assert!(app.available_files.is_empty());
    assert!(app.metadata.is_empty());
    assert!(app.should_quit);
    assert_ne!(app.state, AppState::Processing);
}

#[test]
fn confirming_the_last_file_enters_finalization_and_terminates() {
    let mut app = batch(&["only.wav"]);
    let location_done = app.handle_command(Command::Confirm);
    assert!(matches!(location_done, Action::Nothing));
    type_text(&mut app, "night, crickets");
    let tags_done = app.handle_command(Command::Confirm);
    assert!(matches!(tags_done, Action::RunFinalizer));
    assert_eq!(app.state, AppState::Processing);
    assert!(app.should_quit);
    assert_eq!(app.current_file_index, 1);
}
