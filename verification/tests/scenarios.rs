//! Whole-batch scenarios: the session driven end to end, with the batch
//! finalizer's steps played out as a loop around the library would.

use wavnote::session::{App, AppState, Action, Command};
use wavnote::finalize::{Finalizer, FinalizeStep};

fn confirm_with(app: &mut App, text: &str) -> Action {
    for c in text.chars() {
        app.handle_command(Command::InsertChar(c));
    }
    app.handle_command(Command::Confirm)
}

#[test]
fn three_file_batch_converts_all_and_tags_the_last() {
    let files = vec![
        "one.wav".to_string(),
        "two.wav".to_string(),
        "three.wav".to_string(),
    ];
    let mut app = App::new(files);

    confirm_with(&mut app, "hill");
    let advance = confirm_with(&mut app, "wind");
    assert!(matches!(advance, Action::StartTrack(1)));
    app.track_loaded(30_000, Vec::new());

    confirm_with(&mut app, "valley");
    let advance = confirm_with(&mut app, "river");
    assert!(matches!(advance, Action::StartTrack(2)));
    app.track_loaded(45_000, Vec::new());
    assert_eq!(app.current_file_index, 2);

    confirm_with(&mut app, "coast");
    let last = confirm_with(&mut app, "gulls, surf");
    assert!(matches!(last, Action::RunFinalizer));
    assert_eq!(app.state, AppState::Processing);
    assert!(app.should_quit);

    let mut finalizer = Finalizer::new(app.available_files.clone(), &app.metadata[2]);
    let mut converted: Vec<(String, String)> = Vec::new();
    loop {
        match finalizer.current_step() {
            FinalizeStep::Convert { input, output } => {
                converted.push((input, output));
                finalizer.step_succeeded();
            }
            FinalizeStep::WriteMetadata {
                path,
                tags,
                location,
            } => {
                assert_eq!(path.as_str(), "three.flac");
                assert_eq!(tags.as_deref(), Some("gulls, surf"));
                assert_eq!(location.as_deref(), Some("coast"));
                finalizer.step_succeeded();
            }
            FinalizeStep::Finished => break,
            FinalizeStep::Aborted => panic!("batch failed"),
        }
    }
    let expected = vec![
        ("one.wav".to_string(), "one.flac".to_string()),
        ("two.wav".to_string(), "two.flac".to_string()),
        ("three.wav".to_string(), "three.flac".to_string()),
    ];
    assert_eq!(converted, expected);
}

#[test]
fn conversion_failure_aborts_before_metadata_write() {
    let files = vec![
        "a.wav".to_string(),
        "b.wav".to_string(),
        "c.wav".to_string(),
    ];
    let mut record = wavnote::metadata::FileMetadata::new();
    record.set_location("somewhere");
    record.append_tags("x, y");

    let mut finalizer = Finalizer::new(files, &record);
    let mut converted: Vec<String> = Vec::new();
    let mut metadata_written = false;
    let mut aborted = false;
    loop {
        match finalizer.current_step() {
            FinalizeStep::Convert { input, output } => {
                if input == "b.wav" {
                    // The encoder fails on the second file.
                    finalizer.step_failed();
                } else {
                    converted.push(output);
                    finalizer.step_succeeded();
                }
            }
            FinalizeStep::WriteMetadata { .. } => {
                metadata_written = true;
                finalizer.step_succeeded();
            }
            FinalizeStep::Finished => break,
            FinalizeStep::Aborted => {
                aborted = true;
                break;
            }
        }
    }
    assert!(aborted);
    assert!(!metadata_written);
    // The first file's converted artifact is not rolled back.
    assert_eq!(converted, vec!["a.flac".to_string()]);
}
