use bundle_extractor::catalog::BundleEntry;
use bundle_extractor::paths::{initial_path, ExportSource, ExtractionRequest};
use bundle_extractor::progress::{ExtractionOutcome, Fraction, ProgressEvent};
use bundle_extractor::state::{Command, Message, Row, State};
use std::path::PathBuf;

fn entry(path: &str, size: usize) -> BundleEntry {
    BundleEntry { path: path.to_string(), size }
}

fn loaded() -> State {
    let mut state = State::default();
    state.update(Message::Selected(PathBuf::from("/games/data.unity3d")));
    state.update(Message::CatalogRead(vec![
        entry("b.assets", 5),
        entry("a10.txt", 10),
        entry("c.resS", 3),
        entry("a2.txt", 2),
    ]));
    state
}

fn row(path: &str, size: usize, dimmed: bool) -> Row {
    Row { path: path.to_string(), size, dimmed }
}

#[test]
fn program_starts_without_a_bundle() {
    assert_eq!(initial_path(), None);
    let state = State::default();
    assert_eq!(state.path(), None);
    assert!(state.selection().is_none());
    assert!(state.skip_resources());
    assert_eq!(state.error(), None);
    assert_eq!(state.export_progress(), None);
    assert!(state.can_run());
    assert!(state.rows().is_empty());
}

#[test]
fn open_picker_asks_for_a_bundle() {
    let mut state = State::default();
    assert_eq!(state.update(Message::OpenPicker), Command::PickBundle);
    assert_eq!(state.path(), None);
}

#[test]
fn selecting_a_bundle_asks_for_its_index() {
    let mut state = State::default();
    let path = PathBuf::from("/games/data.unity3d");
    assert_eq!(state.update(Message::Selected(path.clone())), Command::ReadCatalog(path.clone()));
    assert_eq!(state.path(), Some(&path));
    assert!(state.selection().is_none());
}

#[test]
fn read_index_is_shown_in_numeric_order() {
    let state = loaded();
    let catalog = state.selection().unwrap();
    let paths: Vec<&str> = catalog.entries().iter().map(|e| e.path.as_str()).collect();
    assert_eq!(paths, vec!["a2.txt", "a10.txt", "b.assets", "c.resS"]);
    assert_eq!(
        state.rows(),
        vec![
            row("a2.txt", 2, false),
            row("a10.txt", 10, false),
            row("b.assets", 5, true),
            row("c.resS", 3, true),
        ]
    );
}

#[test]
fn rows_are_dimmed_only_while_resources_are_skipped() {
    let mut state = loaded();
    assert_eq!(state.update(Message::SetSkipResources(false)), Command::Nothing);
    assert!(!state.skip_resources());
    assert!(state.rows().iter().all(|r| !r.dimmed));
    assert!(state.should_take("b.assets"));
    state.update(Message::SetSkipResources(true));
    assert!(!state.should_take("b.assets"));
    assert!(state.should_take("a2.txt"));
    let dimmed: Vec<bool> = state.rows().iter().map(|r| r.dimmed).collect();
    assert_eq!(dimmed, vec![false, false, true, true]);
}

#[test]
fn unreadable_bundle_shows_the_error_and_keeps_the_listing() {
    let mut state = loaded();
    let other = PathBuf::from("/games/broken.bundle");
    state.update(Message::Selected(other.clone()));
    assert_eq!(
        state.update(Message::Error("failed to fill whole buffer".to_string())),
        Command::Nothing
    );
    assert_eq!(state.error(), Some(&"failed to fill whole buffer".to_string()));
    assert_eq!(state.path(), Some(&other));
    assert_eq!(state.rows().len(), 4);
}

#[test]
fn export_sets_progress_to_zero_and_asks_for_a_folder() {
    let mut state = loaded();
    state.update(Message::Error("old failure".to_string()));
    let command = state.update(Message::Export);
    assert_eq!(
        command,
        Command::PickOutputFolder(ExportSource {
            bundle_path: Some(PathBuf::from("/games/data.unity3d")),
            skip_resources: true,
        })
    );
    assert_eq!(state.error(), None);
    assert_eq!(state.export_progress(), Some(Fraction::zero()));
    assert!(!state.can_run());
}

#[test]
fn cancelled_folder_dialog_ends_the_export() {
    let mut state = loaded();
    let source = match state.update(Message::Export) {
        Command::PickOutputFolder(source) => source,
        other => panic!("unexpected command {:?}", other),
    };
    assert_eq!(state.update(Message::OutputChosen(source, None)), Command::Nothing);
    assert_eq!(state.export_progress(), None);
    assert!(state.can_run());
}

#[test]
fn chosen_folder_starts_the_extraction() {
    let mut state = loaded();
    state.update(Message::SetSkipResources(false));
    let source = match state.update(Message::Export) {
        Command::PickOutputFolder(source) => source,
        other => panic!("unexpected command {:?}", other),
    };
    let command = state.update(Message::OutputChosen(source, Some(PathBuf::from("/tmp/out"))));
    assert_eq!(
        command,
        Command::Extract(ExtractionRequest {
            bundle_path: PathBuf::from("/games/data.unity3d"),
            output_dir: PathBuf::from("/tmp/out"),
            skip_resources: false,
        })
    );
    assert_eq!(state.export_progress(), Some(Fraction::zero()));
    assert!(!state.can_run());
}

#[test]
fn export_without_a_bundle_starts_nothing() {
    let mut state = State::default();
    let source = match state.update(Message::Export) {
        Command::PickOutputFolder(source) => source,
        other => panic!("unexpected command {:?}", other),
    };
    assert_eq!(source.bundle_path, None);
    assert!(!state.can_run());
    let command = state.update(Message::OutputChosen(source, Some(PathBuf::from("/tmp/out"))));
    assert_eq!(command, Command::Nothing);
    assert!(state.can_run());
}

#[test]
fn progress_stream_moves_the_bar_and_its_end_frees_the_interface() {
    let mut state = loaded();
    state.update(Message::Export);
    let half = Fraction::new(1, 2).unwrap();
    assert_eq!(state.update(Message::progress(ProgressEvent::Fraction(half))), Command::Nothing);
    assert_eq!(state.export_progress(), Some(half));
    assert!(!state.can_run());
    let whole = Fraction::new(2, 2).unwrap();
    state.update(Message::SetProgress(Some(whole)));
    assert_eq!(state.export_progress(), Some(whole));
    state.update(Message::progress(ProgressEvent::Done));
    assert_eq!(state.export_progress(), None);
    assert!(state.can_run());
    assert_eq!(state.update(Message::Finished(ExtractionOutcome::Success)), Command::Nothing);
    assert_eq!(state.error(), None);
    assert!(state.can_run());
}

#[test]
fn failed_export_shows_its_message_and_frees_the_interface() {
    let mut state = loaded();
    state.update(Message::Export);
    state.update(Message::SetProgress(Fraction::new(1, 3)));
    let outcome = ExtractionOutcome::io_failure("Not a directory (os error 20)");
    assert_eq!(state.update(Message::Finished(outcome)), Command::Nothing);
    assert_eq!(
        state.error(),
        Some(&"Error during export: Not a directory (os error 20)".to_string())
    );
    assert_eq!(state.export_progress(), None);
    assert!(state.can_run());
    assert_eq!(state.rows().len(), 4);
}

#[test]
fn new_selection_replaces_the_catalog() {
    let mut state = loaded();
    state.update(Message::Selected(PathBuf::from("/games/other.bundle")));
    state.update(Message::CatalogRead(vec![entry("only.bin", 7)]));
    assert_eq!(state.rows(), vec![row("only.bin", 7, false)]);
    state.update(Message::CatalogRead(Vec::new()));
    assert!(state.rows().is_empty());
    assert!(state.selection().is_some());
}
