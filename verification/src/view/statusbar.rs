use vstd::prelude::*;

use crate::model::{
    ConfirmState, FilenameAction, FilenameStatus, LabelAction, Model, PostSaveAction,
};

verus! {

/// The text of the status bar: a message, a message with bracketed extra
/// information, the name of the open file, or the mark of an unsaved session.
pub enum StatusText<'a> {
    Message(&'static str),
    WithInfo(&'static str, &'static str),
    Filename(&'a str),
    Untitled,
}

impl<'a> StatusText<'a> {
    /// The message and extra information, when the status bar shows them.
    pub open spec fn parts(self) -> Option<(Seq<char>, Option<Seq<char>>)> {
        match self {
            StatusText::Message(m) => Some((m@, None)),
            StatusText::WithInfo(m, i) => Some((m@, Some(i@))),
            _ => None,
        }
    }
}

/// Status bar text with the `message` and additional info if present.
fn status_info(message: &'static str, maybe_info: Option<&'static str>) -> (res: StatusText<'static>)
    ensures
        res.parts() == Some((message@, match maybe_info {
            Some(i) => Some(i@),
            None => None,
        })),
{
    match maybe_info {
        Some(text) => StatusText::WithInfo(message, text),
        None => StatusText::Message(message),
    }
}

/// The message and extra information of the status bar in each mode but
/// Normal mode, which shows the open file instead.
pub open spec fn model_status(model: Model) -> Option<(Seq<char>, Option<Seq<char>>)> {
    match model {
        Model::Load(_) => Some(("Open a file or start a new session"@, None)),
        Model::Normal(_) => None,
        Model::Insert(_) => Some(("Enter position to insert new item"@, None)),
        Model::Move(_) => Some(("Move subtree"@, None)),
        Model::Save(save_state) => Some(
            (
                "Save changes?"@,
                Some(
                    match save_state.post_save {
                        PostSaveAction::Load => "Loading"@,
                        PostSaveAction::Quit => "Quitting"@,
                    },
                ),
            ),
        ),
        Model::LabelInput(label_state) => Some(
            (
                match label_state.action {
                    LabelAction::Insert => "Insert item"@,
                    LabelAction::Rename => "Rename item"@,
                },
                if label_state.input@.len() == 0 {
                    Some("Empty"@)
                } else {
                    None
                },
            ),
        ),
        Model::FilenameInput(filename_state) => Some(
            (
                match filename_state.action {
                    FilenameAction::Rename(_) => "Rename file"@,
                    FilenameAction::SaveNew { .. } => "Save new file"@,
                },
                match filename_state.status {
                    FilenameStatus::Empty => Some("Empty"@),
                    FilenameStatus::Exists => Some("File Exists"@),
                    FilenameStatus::Invalid => Some("Invalid Filename"@),
                    FilenameStatus::Valid => None,
                },
            ),
        ),
        Model::Confirm(confirm_state) => Some(
            (
                match confirm_state {
                    ConfirmState::NewSession => "No saved files, starting new session..."@,
                    ConfirmState::DeleteItem(_) => "Delete item?"@,
                    ConfirmState::DeleteFile(_) => "Delete file?"@,
                },
                None,
            ),
        ),
    }
}

/// Return the status bar text based on the `model`.
pub fn status_text(model: &Model) -> (res: StatusText<'_>)
    ensures
        res.parts() == model_status(*model),
        model matches Model::Normal(state) ==> (match state.maybe_file {
            Some(file) => res matches StatusText::Filename(name) && name@ == file.name@,
            None => res is Untitled,
        }),
{
    match model {
        Model::Load(_) => StatusText::Message("Open a file or start a new session"),
        Model::Normal(state) => match state.get_filename() {
            Some(filename) => StatusText::Filename(filename),
            None => StatusText::Untitled,
        },
        Model::Insert(_) => StatusText::Message("Enter position to insert new item"),
        Model::Move(_) => StatusText::Message("Move subtree"),
        Model::Save(save_state) => {
            let info = match save_state.post_save {
                PostSaveAction::Load => "Loading",
                PostSaveAction::Quit => "Quitting",
            };
            status_info("Save changes?", Some(info))
        },
        Model::LabelInput(label_state) => {
            let message = match label_state.action {
                LabelAction::Insert => "Insert item",
                LabelAction::Rename => "Rename item",
            };
            let info = if label_state.input.as_str().is_empty() {
                Some("Empty")
            } else {
                None
            };
            status_info(message, info)
        },
        Model::FilenameInput(filename_state) => {
            let message = match filename_state.action {
                FilenameAction::Rename(_) => "Rename file",
                FilenameAction::SaveNew { .. } => "Save new file",
            };
            let info = match filename_state.status {
                FilenameStatus::Empty => Some("Empty"),
                FilenameStatus::Exists => Some("File Exists"),
                FilenameStatus::Invalid => Some("Invalid Filename"),
                FilenameStatus::Valid => None,
            };
            status_info(message, info)
        },
        Model::Confirm(confirm_state) => match confirm_state {
            ConfirmState::NewSession => StatusText::Message(
                "No saved files, starting new session...",
            ),
            ConfirmState::DeleteItem(_) => StatusText::Message("Delete item?"),
            ConfirmState::DeleteFile(_) => StatusText::Message("Delete file?"),
        },
    }
}

/// The texts of the status bar's spans in each mode: a leading space and
/// the message, then the separator and the bracketed extra information when
/// there is some; in Normal mode the open file's name, or `[Untitled]`.
pub open spec fn status_span_texts(model: Model) -> Seq<Seq<char>> {
    match model_status(model) {
        Some((message, None)) => seq![" "@, message],
        Some((message, Some(info))) => seq![" "@, message, " | "@, "["@ + info + "]"@],
        None => match model {
            Model::Normal(state) => match state.maybe_file {
                Some(file) => seq![" "@, file.name@],
                None => seq![" "@, "[Untitled]"@],
            },
            _ => Seq::empty(),
        },
    }
}

/// Return the texts of the status bar's spans for the `model`, in order.
pub fn status_spans(model: &Model) -> (res: Vec<String>)
    ensures
        res@.len() == status_span_texts(*model).len(),
        forall|k: int| 0 <= k < res@.len() ==> (#[trigger] res@[k])@ == status_span_texts(*model)[k],
{
    let mut spans: Vec<String> = Vec::new();
    spans.push(" ".to_owned());
    match status_text(model) {
        StatusText::Message(message) => {
            spans.push(message.to_owned());
        },
        StatusText::WithInfo(message, info) => {
            spans.push(message.to_owned());
            spans.push(" | ".to_owned());
            let mut bracketed = "[".to_owned();
            bracketed.append(info);
            bracketed.append("]");
            spans.push(bracketed);
        },
        StatusText::Filename(name) => {
            spans.push(name.to_owned());
        },
        StatusText::Untitled => {
            spans.push("[Untitled]".to_owned());
        },
    }
    spans
}

} // verus!
