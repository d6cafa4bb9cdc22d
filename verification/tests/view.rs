use std::path::PathBuf;

use elmlog::model::{
    ConfirmState, FileEntry, FilenameAction, FilenameState, FilenameStatus, LabelState, LoadState,
    Model, OpenDataFile, PostSaveAction, SaveState, SessionState,
};
use elmlog::forest::Node;
use elmlog::util::max_index_length;
use elmlog::view::cmdbar::{KeyCommand, command_bar_spans, command_pairs, load_mode_commands};
use elmlog::view::forest::{LineContent, build_forest_window, forest_lines};
use elmlog::view::forest_view::forest_rows;
use elmlog::view::statusbar::{StatusText, status_spans, status_text};
use elmlog::view::{compute_scroll_info, load_window, scroll_hint};
use elmlog::zipper::FocusNode;

#[test]
fn max_index_length_counts_digits() {
    assert_eq!(max_index_length(0), 0);
    assert_eq!(max_index_length(1), 1);
    assert_eq!(max_index_length(10), 1);
    assert_eq!(max_index_length(11), 2);
    assert_eq!(max_index_length(101), 3);
    assert_eq!(max_index_length(usize::MAX), usize::MAX.to_string().len());
}

#[test]
fn scroll_info_centers_index() {
    let info = compute_scroll_info(4, 10, 5);
    assert_eq!((info.start, info.more_above, info.more_below), (3, true, true));
    let info = compute_scroll_info(4, 10, 1);
    assert_eq!((info.start, info.more_above, info.more_below), (0, false, true));
    let info = compute_scroll_info(4, 10, 9);
    assert_eq!((info.start, info.more_above, info.more_below), (6, true, false));
    let info = compute_scroll_info(20, 10, 9);
    assert_eq!((info.start, info.more_above, info.more_below), (0, false, false));
}

#[test]
fn scroll_hints() {
    assert_eq!(scroll_hint(true), " ...");
    assert_eq!(scroll_hint(false), "");
}

fn files(n: usize) -> Vec<FileEntry> {
    (0..n).map(|i| FileEntry { name: format!("f{i}"), path: PathBuf::from(format!("/f{i}")) }).collect()
}

#[test]
fn load_window_keeps_selection_visible() {
    let state = LoadState { files: files(10), index: 7 };
    let w = load_window(&state, 4);
    assert_eq!((w.start, w.end, w.selected), (5, 9, 2));
    assert!(w.more_above && w.more_below);
    let state = LoadState { files: files(3), index: 2 };
    let w = load_window(&state, 4);
    assert_eq!((w.start, w.end, w.selected), (0, 3, 2));
    assert!(!w.more_above && !w.more_below);
}

fn lines(n: usize, focused: usize) -> Vec<LineContent<'static>> {
    const LABELS: [&str; 8] = ["0", "1", "2", "3", "4", "5", "6", "7"];
    (0..n)
        .map(|i| LineContent { tree_prefix: String::new(), label: LABELS[i], is_focused: i == focused })
        .collect()
}

fn window_labels(n: usize, focused: usize, height: usize) -> (Vec<&'static str>, bool, bool) {
    let w = build_forest_window(lines(n, focused), height);
    (w.items.iter().map(|l| l.label).collect(), w.more_above, w.more_below)
}

#[test]
fn forest_window_centers_focus() {
    assert_eq!(window_labels(8, 5, 3), (vec!["4", "5", "6"], true, true));
    assert_eq!(window_labels(8, 0, 3), (vec!["0", "1", "2"], false, true));
    assert_eq!(window_labels(8, 7, 3), (vec!["5", "6", "7"], true, false));
    assert_eq!(window_labels(8, 4, 4), (vec!["2", "3", "4", "5"], true, true));
    assert_eq!(window_labels(3, 1, 5), (vec!["0", "1", "2"], false, false));
}

#[test]
fn forest_window_edge_cases() {
    assert_eq!(window_labels(5, 2, 0), (vec![], false, false));
    assert_eq!(window_labels(0, 0, 3), (vec![], false, false));
    // Without a focused line the window shows the end of the list.
    assert_eq!(window_labels(6, 99, 2), (vec!["4", "5"], true, false));
}

// The forest `a(b(c), d), e` with `c` focused.
fn sample() -> FocusNode {
    FocusNode::new()
        .set_label("a".to_string())
        .insert_child()
        .set_label("b".to_string())
        .insert_next()
        .set_label("d".to_string())
        .focus_prev()
        .insert_child()
        .set_label("c".to_string())
        .focus_parent()
        .focus_parent()
        .insert_next()
        .set_label("e".to_string())
        .focus_prev()
        .focus_child()
        .focus_child()
}

#[test]
fn forest_lines_draw_tree() {
    let focus = sample();
    let rows: Vec<(String, &str, bool)> = forest_lines(Some(&focus))
        .into_iter()
        .map(|l| (l.tree_prefix, l.label, l.is_focused))
        .collect();
    assert_eq!(
        rows,
        vec![
            ("".to_string(), "a", false),
            ("├──".to_string(), "b", false),
            ("│  └──".to_string(), "c", true),
            ("└──".to_string(), "d", false),
            ("".to_string(), "e", false),
        ]
    );
    assert!(forest_lines(None).is_empty());
}

#[test]
fn forest_lines_deep_spacers() {
    // x(y(z)), w(v)
    let focus = FocusNode::new()
        .set_label("x".to_string())
        .insert_child()
        .set_label("y".to_string())
        .insert_child()
        .set_label("z".to_string())
        .focus_parent()
        .focus_parent()
        .insert_next()
        .set_label("w".to_string())
        .insert_child()
        .set_label("v".to_string());
    let prefixes: Vec<String> = forest_lines(Some(&focus)).into_iter().map(|l| l.tree_prefix).collect();
    assert_eq!(prefixes, vec!["", "└──", "   └──", "", "└──"]);
}

#[test]
fn command_bar_pairs() {
    let pairs: Vec<(&str, &str)> = load_mode_commands(2).iter().map(|c| (c.key(), c.name())).collect();
    assert_eq!(
        pairs,
        vec![
            ("JK │ ↓↑", "Navigate"),
            ("Enter", "Open"),
            ("N", "New"),
            ("R", "Rename"),
            ("D", "Delete"),
            ("Q", "Quit"),
        ]
    );
    assert_eq!(load_mode_commands(1)[0], KeyCommand::Open);
    let model = Model::Normal(SessionState::new());
    assert_eq!(command_pairs(&model), vec![KeyCommand::Insert, KeyCommand::Quit]);
    let focused = SessionState { focus: Some(FocusNode::new()), maybe_file: None, changed: false };
    assert_eq!(command_pairs(&Model::Normal(focused)).len(), 8);
    let model = Model::Confirm(ConfirmState::NewSession);
    assert_eq!(command_pairs(&model), vec![KeyCommand::Confirm]);
    let model = Model::LabelInput(LabelState::new_insert(SessionState::new()).append('a'));
    assert_eq!(command_pairs(&model), vec![KeyCommand::Submit, KeyCommand::Cancel]);
    assert_eq!(KeyCommand::Cancel.key(), "Esc");
}

#[test]
fn status_bar_text() {
    let model = Model::Normal(SessionState::new());
    assert!(matches!(status_text(&model), StatusText::Untitled));
    let session = SessionState {
        focus: None,
        maybe_file: Some(OpenDataFile { name: "notes".to_string(), path: PathBuf::from("/notes") }),
        changed: false,
    };
    let model = Model::Normal(session);
    assert!(matches!(status_text(&model), StatusText::Filename("notes")));
    let model = Model::Save(SaveState::new_quit(SessionState::new()));
    assert!(matches!(status_text(&model), StatusText::WithInfo("Save changes?", "Quitting")));
    let model = Model::FilenameInput(FilenameState {
        input: "x".to_string(),
        status: FilenameStatus::Exists,
        action: FilenameAction::SaveNew { session: SessionState::new(), post_save: PostSaveAction::Load },
    });
    assert!(matches!(status_text(&model), StatusText::WithInfo("Save new file", "File Exists")));
    let model = Model::Load(LoadState { files: files(1), index: 0 });
    assert!(matches!(status_text(&model), StatusText::Message("Open a file or start a new session")));
}

#[test]
fn forest_rows_draw_tree() {
    let leaf = |label: &str, sibling: Node| Node::new(label.to_string(), Node::Empty, sibling);
    // a(b, c), d(e)
    let root = Node::new(
        "a".to_string(),
        leaf("b", leaf("c", Node::Empty)),
        Node::new("d".to_string(), leaf("e", Node::Empty), Node::Empty),
    );
    let rows: Vec<(String, &str)> = forest_rows(&root);
    assert_eq!(
        rows,
        vec![
            ("".to_string(), "a"),
            ("├──".to_string(), "b"),
            ("└──".to_string(), "c"),
            ("".to_string(), "d"),
            ("└──".to_string(), "e"),
        ]
    );
}

#[test]
fn load_window_without_selection() {
    let state = LoadState { files: files(3), index: 5 };
    let w = load_window(&state, 2);
    assert_eq!((w.start, w.end, w.selected), (1, 3, 4));
    assert!(w.more_above && !w.more_below);
}

fn filename_model(status: FilenameStatus) -> Model {
    Model::FilenameInput(FilenameState {
        input: "x".to_string(),
        status,
        action: FilenameAction::Rename(LoadState { files: files(1), index: 0 }),
    })
}

#[test]
fn status_bar_span_texts() {
    assert_eq!(
        status_spans(&filename_model(FilenameStatus::Invalid)),
        vec![" ", "Rename file", " | ", "[Invalid Filename]"]
    );
    assert_eq!(status_spans(&filename_model(FilenameStatus::Valid)), vec![" ", "Rename file"]);
    assert_eq!(status_spans(&Model::Normal(SessionState::new())), vec![" ", "[Untitled]"]);
    let session = SessionState {
        focus: None,
        maybe_file: Some(OpenDataFile { name: "notes".to_string(), path: PathBuf::from("/notes") }),
        changed: false,
    };
    assert_eq!(status_spans(&Model::Normal(session)), vec![" ", "notes"]);
}

#[test]
fn command_bar_span_texts() {
    let model = Model::Save(SaveState::new_load(SessionState::new()));
    assert_eq!(
        command_bar_spans(&model),
        vec![" Space ", " Toggle", "    ", " Enter ", " Confirm", "    ", " Esc ", " Cancel"]
    );
    let model = Model::Confirm(ConfirmState::NewSession);
    assert_eq!(command_bar_spans(&model), vec![" Enter ", " Confirm"]);
}
