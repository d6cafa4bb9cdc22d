use std::path::PathBuf;

use elmlog::io::{
    Command, FileOutcome, after_delete_file, after_rename, after_save, after_save_new,
    existence_status, init_session, load_model,
};
use elmlog::message::{Key, key_to_message};
use elmlog::model::{
    ConfirmState, FileEntry, FilenameAction, FilenameState, FilenameStatus, LabelAction,
    LabelState, LoadState, Model, OpenDataFile, PostSaveAction, SaveState, SessionState,
};
use elmlog::update::update;
use elmlog::zipper::FocusNode;
use elmlog::zipper::iter::focus_iter;

fn entry(name: &str) -> FileEntry {
    FileEntry { name: name.to_string(), path: PathBuf::from(format!("/data/{name}")) }
}

fn files(names: &[&str]) -> Vec<FileEntry> {
    names.iter().map(|n| entry(n)).collect()
}

fn names(load_state: &LoadState) -> Vec<String> {
    load_state.files.iter().map(|f| f.name.clone()).collect()
}

// Feed `key` to the model and take the model that the command continues with.
fn press(model: Model, key: Key) -> Model {
    match update(key_to_message(model, key)) {
        Command::Continue(model) => model,
        _ => panic!("expected the model to continue"),
    }
}

fn labels(state: &SessionState) -> Vec<String> {
    match &state.focus {
        Some(focus) => focus_iter(focus).into_iter().map(|n| n.label.to_string()).collect(),
        None => Vec::new(),
    }
}

fn typed(mut model: Model, text: &str) -> Model {
    for c in text.chars() {
        model = press(model, Key::Char(c));
    }
    model
}

#[test]
fn load_model_lists_files_or_starts_new_session() {
    match load_model(files(&["a", "b"])) {
        Model::Load(s) => {
            assert_eq!(names(&s), vec!["a", "b"]);
            assert_eq!(s.index, 0);
        }
        _ => panic!("expected the file list"),
    }
    assert!(matches!(load_model(Vec::new()), Model::Confirm(ConfirmState::NewSession)));
}

#[test]
fn load_navigation_stays_in_range() {
    let model = Model::Load(LoadState { files: files(&["a", "b", "c"]), index: 0 });
    let model = press(model, Key::Up);
    assert!(matches!(&model, Model::Load(s) if s.index == 0));
    let model = press(press(press(model, Key::Down), Key::Char('j')), Key::Down);
    assert!(matches!(&model, Model::Load(s) if s.index == 2));
    let model = press(model, Key::Char('k'));
    assert!(matches!(&model, Model::Load(s) if s.index == 1));
}

#[test]
fn load_open_and_quit() {
    let state = LoadState { files: files(&["a", "b"]), index: 1 };
    match update(key_to_message(Model::Load(state), Key::Enter)) {
        Command::InitSession(e) => assert_eq!(e.name, "b"),
        _ => panic!("expected to open the selected file"),
    }
    let state = LoadState { files: files(&["a"]), index: 0 };
    assert!(matches!(update(key_to_message(Model::Load(state), Key::Char('q'))), Command::Quit));
}

#[test]
fn insert_first_node_and_label_it() {
    let model = Model::Normal(SessionState::new());
    let model = press(model, Key::Char('i'));
    let model = typed(model, " note ");
    match &model {
        Model::LabelInput(l) => {
            // The leading space is dropped.
            assert_eq!(l.input, "note ");
            assert_eq!(l.action, LabelAction::Insert);
        }
        _ => panic!("expected label input"),
    }
    let model = press(model, Key::Enter);
    match &model {
        Model::Normal(s) => {
            assert_eq!(labels(s), vec!["note"]);
            assert!(s.changed);
        }
        _ => panic!("expected normal mode"),
    }
}

#[test]
fn empty_label_is_not_submitted() {
    let model = press(Model::Normal(SessionState::new()), Key::Char('i'));
    let model = press(model, Key::Enter);
    assert!(matches!(model, Model::LabelInput(_)));
    // Cancelling the insert removes the new node again.
    let model = press(model, Key::Esc);
    match model {
        Model::Normal(s) => {
            assert!(s.focus.is_none());
            assert!(!s.changed);
        }
        _ => panic!("expected normal mode"),
    }
}

#[test]
fn backspace_edits_label() {
    let model = typed(press(Model::Normal(SessionState::new()), Key::Char('i')), "abc");
    let model = press(press(model, Key::Backspace), Key::Backspace);
    assert!(matches!(&model, Model::LabelInput(l) if l.input == "a"));
}

fn session_with(labels: &[&str]) -> SessionState {
    let mut focus = FocusNode::new().set_label(labels[0].to_string());
    for label in &labels[1..] {
        focus = focus.insert_next().set_label(label.to_string());
    }
    SessionState { focus: Some(focus), maybe_file: None, changed: false }
}

#[test]
fn insert_mode_positions() {
    let model = press(Model::Normal(session_with(&["a", "b"])), Key::Char('i'));
    assert!(matches!(model, Model::Insert(_)));
    let model = press(model, Key::Char('k'));
    let model = press(typed(model, "x"), Key::Enter);
    assert!(matches!(&model, Model::Normal(s) if labels(s) == vec!["a", "x", "b"]));
}

#[test]
fn move_mode_swaps_and_marks_changed() {
    let model = press(Model::Normal(session_with(&["a", "b"])), Key::Char('m'));
    let model = press(model, Key::Char('k'));
    match &model {
        Model::Move(s) => {
            assert_eq!(labels(s), vec!["b", "a"]);
            assert!(s.changed);
        }
        _ => panic!("expected move mode"),
    }
    let model = press(model, Key::Enter);
    assert!(matches!(model, Model::Normal(_)));
}

#[test]
fn unchanged_move_is_not_a_change() {
    // The first node has no previous sibling to swap with.
    let model = press(Model::Normal(session_with(&["a"])), Key::Char('m'));
    let model = press(model, Key::Char('k'));
    assert!(matches!(&model, Model::Move(s) if !s.changed));
}

#[test]
fn delete_needs_confirmation() {
    let model = press(Model::Normal(session_with(&["a", "b"])), Key::Char('d'));
    assert!(matches!(model, Model::Confirm(ConfirmState::DeleteItem(_))));
    let cancelled = press(model, Key::Esc);
    assert!(matches!(&cancelled, Model::Normal(s) if labels(s) == vec!["a", "b"] && !s.changed));
    let model = press(press(cancelled, Key::Char('d')), Key::Enter);
    assert!(matches!(&model, Model::Normal(s) if labels(s) == vec!["a"] && s.changed));
}

#[test]
fn quitting_with_changes_asks_to_save() {
    let mut state = session_with(&["a"]);
    state.changed = true;
    let model = press(Model::Normal(state), Key::Char('q'));
    assert!(matches!(&model, Model::Save(s) if s.save && s.post_save == PostSaveAction::Quit));
    // Toggle to discard, then confirm: quit without saving.
    let model = press(model, Key::Char(' '));
    assert!(matches!(&model, Model::Save(s) if !s.save));
    assert!(matches!(update(key_to_message(model, Key::Enter)), Command::Quit));
    // Quitting without changes quits at once.
    let model = Model::Normal(session_with(&["a"]));
    assert!(matches!(update(key_to_message(model, Key::Char('q'))), Command::Quit));
}

#[test]
fn saving_an_untitled_session_asks_for_a_name() {
    let mut state = session_with(&["a"]);
    state.changed = true;
    let model = press(press(Model::Normal(state), Key::Char('q')), Key::Enter);
    match &model {
        Model::FilenameInput(f) => {
            assert_eq!(f.status, FilenameStatus::Empty);
            assert!(matches!(f.action, FilenameAction::SaveNew { post_save: PostSaveAction::Quit, .. }));
        }
        _ => panic!("expected filename input"),
    }
    // Typing asks for a check of the name.
    match update(key_to_message(model, Key::Char('f'))) {
        Command::CheckFileExists(f) => {
            assert_eq!(f.input, "f");
            let f = f.set_status(existence_status(false));
            assert!(f.is_valid());
            match update(key_to_message(Model::FilenameInput(f), Key::Enter)) {
                Command::SaveNew(name, _, post_save) => {
                    assert_eq!(name, "f");
                    assert_eq!(post_save, PostSaveAction::Quit);
                }
                _ => panic!("expected to save a new file"),
            }
        }
        _ => panic!("expected a name check"),
    }
}

#[test]
fn saving_an_open_file_saves_in_place() {
    let mut state = session_with(&["a"]);
    state.changed = true;
    state.maybe_file = Some(OpenDataFile { name: "f".to_string(), path: PathBuf::from("/data/f") });
    let model = press(Model::Normal(state), Key::Char('q'));
    match update(key_to_message(model, Key::Enter)) {
        Command::Save(s, PostSaveAction::Quit) => assert_eq!(s.get_filename(), Some("f")),
        _ => panic!("expected to save"),
    }
}

#[test]
fn filename_is_trimmed_on_submit() {
    let state = FilenameState {
        input: "notes  ".to_string(),
        status: FilenameStatus::Valid,
        action: FilenameAction::Rename(LoadState { files: files(&["a"]), index: 0 }),
    };
    assert_eq!(state.trimmed(), "notes");
    match update(key_to_message(Model::FilenameInput(state), Key::Enter)) {
        Command::RenameFile(name, l) => {
            assert_eq!(name, "notes");
            assert_eq!(names(&l), vec!["a"]);
        }
        _ => panic!("expected a rename"),
    }
}

#[test]
fn emptied_filename_is_marked_empty() {
    let state = FilenameState {
        input: "a".to_string(),
        status: FilenameStatus::Valid,
        action: FilenameAction::Rename(LoadState { files: files(&["a"]), index: 0 }),
    };
    let model = press(Model::FilenameInput(state), Key::Backspace);
    assert!(matches!(&model, Model::FilenameInput(f) if f.input.is_empty() && f.status == FilenameStatus::Empty));
    let model = press(model, Key::Esc);
    assert!(matches!(model, Model::Load(_)));
}

#[test]
fn rename_outcomes() {
    let load_state = || LoadState { files: files(&["a", "b"]), index: 1 };
    match after_rename("c".to_string(), load_state(), FileOutcome::Done(PathBuf::from("/data/c"))) {
        Model::Load(s) => {
            assert_eq!(names(&s), vec!["a", "c"]);
            assert_eq!(s.files[1].path, PathBuf::from("/data/c"));
            assert_eq!(s.index, 1);
        }
        _ => panic!("expected the file list"),
    }
    match after_rename("a".to_string(), load_state(), FileOutcome::Exists) {
        Model::FilenameInput(f) => {
            assert_eq!(f.input, "a");
            assert_eq!(f.status, FilenameStatus::Exists);
        }
        _ => panic!("expected filename input"),
    }
    match after_rename("/".to_string(), load_state(), FileOutcome::Failed) {
        Model::FilenameInput(f) => assert_eq!(f.status, FilenameStatus::Invalid),
        _ => panic!("expected filename input"),
    }
}

#[test]
fn save_new_outcomes() {
    let done = after_save_new("f".to_string(), SessionState::new(), PostSaveAction::Load, FileOutcome::Done(PathBuf::from("/data/f")));
    assert!(matches!(done, Command::Load));
    let done = after_save_new("f".to_string(), SessionState::new(), PostSaveAction::Quit, FileOutcome::Done(PathBuf::from("/data/f")));
    assert!(matches!(done, Command::Quit));
    match after_save_new("f".to_string(), SessionState::new(), PostSaveAction::Load, FileOutcome::Exists) {
        Command::Continue(Model::FilenameInput(f)) => assert_eq!(f.status, FilenameStatus::Exists),
        _ => panic!("expected filename input"),
    }
    match after_save_new("f".to_string(), SessionState::new(), PostSaveAction::Load, FileOutcome::Failed) {
        Command::Continue(Model::FilenameInput(f)) => assert_eq!(f.status, FilenameStatus::Invalid),
        _ => panic!("expected filename input"),
    }
    assert!(matches!(after_save(PostSaveAction::Load), Command::Load));
}

#[test]
fn deleting_files() {
    match after_delete_file(LoadState { files: files(&["a", "b", "c"]), index: 2 }) {
        Model::Load(s) => {
            assert_eq!(names(&s), vec!["a", "b"]);
            assert_eq!(s.index, 1);
        }
        _ => panic!("expected the file list"),
    }
    match after_delete_file(LoadState { files: files(&["a", "b", "c"]), index: 0 }) {
        Model::Load(s) => {
            assert_eq!(names(&s), vec!["b", "c"]);
            assert_eq!(s.index, 0);
        }
        _ => panic!("expected the file list"),
    }
    let last = after_delete_file(LoadState { files: files(&["a"]), index: 0 });
    assert!(matches!(last, Model::Confirm(ConfirmState::NewSession)));
    // Deleting a file needs confirmation first.
    let model = press(Model::Load(LoadState { files: files(&["a"]), index: 0 }), Key::Char('d'));
    assert!(matches!(update(key_to_message(model, Key::Enter)), Command::DeleteFile(_)));
}

#[test]
fn opened_session() {
    let session = init_session(entry("f"), Some(FocusNode::new()));
    assert_eq!(session.get_filename(), Some("f"));
    assert!(!session.changed);
    let (focus, path) = session.unlock_state();
    assert!(focus.is_some());
    assert_eq!(path, Some(PathBuf::from("/data/f")));
}

#[test]
fn label_state_edits() {
    let state = LabelState::new_insert(SessionState::new()).append(' ').append('x').append(' ');
    assert_eq!(state.input, "x ");
    let state = state.pop().pop().pop();
    assert_eq!(state.input, "");
    let state = LabelState::new_rename("old".to_string(), SessionState::new());
    assert_eq!(state.action, LabelAction::Rename);
    assert_eq!(state.input, "old");
}

#[test]
fn save_state_toggle() {
    let state = SaveState::new_load(SessionState::new());
    assert!(state.save);
    let state = state.toggle();
    assert!(!state.save);
    assert_eq!(state.post_save, PostSaveAction::Load);
    assert_eq!(SaveState::new_quit(SessionState::new()).post_save, PostSaveAction::Quit);
}

#[test]
fn load_state_moves() {
    let state = LoadState { files: files(&["a", "b"]), index: 0 };
    let state = state.increment();
    assert_eq!(state.index, 1);
    let state = state.increment();
    assert_eq!(state.index, 1);
    assert_eq!(state.extract_selected().name, "b");
}

#[test]
fn unknown_keys_change_nothing() {
    let model = press(Model::Normal(session_with(&["a"])), Key::Char('z'));
    assert!(matches!(&model, Model::Normal(s) if labels(s) == vec!["a"] && !s.changed));
    let model = press(Model::Confirm(ConfirmState::NewSession), Key::Esc);
    assert!(matches!(model, Model::Confirm(ConfirmState::NewSession)));
    let model = press(model, Key::Enter);
    assert!(matches!(&model, Model::Normal(s) if s.focus.is_none()));
}

#[test]
fn rename_to_existing_name_needs_no_selection() {
    let load_state = LoadState { files: Vec::new(), index: 0 };
    match after_rename("a".to_string(), load_state, FileOutcome::Exists) {
        Model::FilenameInput(f) => {
            assert_eq!(f.status, FilenameStatus::Exists);
            assert!(matches!(f.action, FilenameAction::Rename(ref l) if l.files.is_empty()));
        }
        _ => panic!("expected filename input"),
    }
}

#[test]
fn load_messages_without_selection() {
    let empty = || LoadState { files: Vec::new(), index: 0 };
    let model = press(Model::Load(empty()), Key::Char('k'));
    assert!(matches!(&model, Model::Load(s) if s.index == 0));
    let model = press(Model::Load(empty()), Key::Char('r'));
    assert!(matches!(model, Model::FilenameInput(_)));
    let model = press(Model::Load(empty()), Key::Char('d'));
    assert!(matches!(model, Model::Confirm(ConfirmState::DeleteFile(_))));
}
