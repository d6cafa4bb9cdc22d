use std::path::PathBuf;

use vstd::prelude::*;

use crate::model::{
    ConfirmState, FileEntry, FilenameAction, FilenameState, FilenameStatus, LoadState, Model,
    OpenDataFile, PostSaveAction, SessionState,
};
use crate::zipper::FocusNode;

verus! {

/// A message indicating an IO action to perform.
pub enum Command {
    Continue(Model),
    Load,
    InitSession(FileEntry),
    CheckFileExists(FilenameState),
    RenameFile(String, LoadState),
    SaveNew(String, SessionState, PostSaveAction),
    Save(SessionState, PostSaveAction),
    DeleteFile(LoadState),
    Quit,
}

impl LoadState {
    /// The index selects one of the files.
    pub open spec fn wf(&self) -> bool {
        self.index < self.files@.len()
    }
}

/// Return the LoadState for the data files found, if there is at least one.
pub fn get_load_state(files: Vec<FileEntry>) -> (res: Option<LoadState>)
    ensures
        files@.len() == 0 ==> res is None,
        files@.len() > 0 ==> res == Some(LoadState { files, index: 0 }),
{
    if files.len() == 0 {
        return None;
    }
    Some(LoadState { files, index: 0 })
}

/// The model shown after scanning the data files: the file list, or a
/// confirmation to start a new session when there is no file.
pub fn load_model(files: Vec<FileEntry>) -> (res: Model)
    ensures
        files@.len() == 0 ==> res == Model::Confirm(ConfirmState::NewSession),
        files@.len() > 0 ==> res == Model::Load(LoadState { files, index: 0 }),
{
    match get_load_state(files) {
        Some(load_state) => Model::Load(load_state),
        None => Model::Confirm(ConfirmState::NewSession),
    }
}

/// Replace the selected file's entry after it was renamed to `filename`,
/// now at `new_path`.
pub fn rename_selected_file(load_state: &mut LoadState, filename: String, new_path: PathBuf)
    requires
        old(load_state).wf(),
    ensures
        final(load_state).index == old(load_state).index,
        final(load_state).files@ == old(load_state).files@.update(
            old(load_state).index as int,
            FileEntry { name: filename, path: new_path },
        ),
{
    let i = load_state.index;
    load_state.files.set(i, FileEntry { name: filename, path: new_path });
}

/// Remove the selected file's entry from the list once the file is deleted.
/// Return None if there are no files left.
pub fn delete_selected_file(load_state: LoadState) -> (res: Option<LoadState>)
    requires
        load_state.wf(),
    ensures
        load_state.files@.len() == 1 ==> res is None,
        load_state.files@.len() > 1 ==> (res matches Some(s) && s.files@
            == load_state.files@.remove(load_state.index as int) && s.index == (if load_state.index
            + 1 == load_state.files@.len() {
            load_state.index - 1
        } else {
            load_state.index as int
        })),
{
    let mut load_state = load_state;
    let _entry = load_state.files.remove(load_state.index);
    if load_state.files.len() == 0 {
        return None;
    }
    if load_state.index == load_state.files.len() {
        load_state.index -= 1;
    }
    Some(load_state)
}

/// The status of a filename that the user entered, given whether a file of
/// that name exists.
pub fn existence_status(exists: bool) -> (res: FilenameStatus)
    ensures
        res == (if exists {
            FilenameStatus::Exists
        } else {
            FilenameStatus::Valid
        }),
{
    if exists {
        FilenameStatus::Exists
    } else {
        FilenameStatus::Valid
    }
}

/// The session of a saved file, from the file's entry and the forest read
/// from it; the file is open and nothing has changed yet.
pub fn init_session(file_entry: FileEntry, focus: Option<FocusNode>) -> (res: SessionState)
    ensures
        res.focus == focus,
        res.maybe_file == Some(OpenDataFile { name: file_entry.name, path: file_entry.path }),
        !res.changed,
{
    let FileEntry { name, path } = file_entry;
    SessionState { focus, maybe_file: Some(OpenDataFile { name, path }), changed: false }
}

/// The model after the selected file is deleted: the remaining files, or a
/// new session when none is left.
pub fn after_delete_file(load_state: LoadState) -> (res: Model)
    requires
        load_state.wf(),
    ensures
        load_state.files@.len() == 1 ==> res == Model::Confirm(ConfirmState::NewSession),
        load_state.files@.len() > 1 ==> (res matches Model::Load(s) && s.wf() && s.files@
            == load_state.files@.remove(load_state.index as int) && s.index == (if load_state.index
            + 1 == load_state.files@.len() {
            load_state.index - 1
        } else {
            load_state.index as int
        })),
{
    match delete_selected_file(load_state) {
        Some(load_state) => Model::Load(load_state),
        None => Model::Confirm(ConfirmState::NewSession),
    }
}

/// What became of an attempt to rename or create a file.
pub enum FileOutcome {
    /// A file of that name exists already; nothing was done.
    Exists,
    /// The file system refused the name.
    Failed,
    /// The file is now at the path.
    Done(PathBuf),
}

/// The model after an attempt to rename the selected file to `filename`:
/// the file list with the renamed entry, or the filename input again with the
/// reason it failed.
pub fn after_rename(filename: String, load_state: LoadState, outcome: FileOutcome) -> (res: Model)
    requires
        !(outcome is Exists) ==> load_state.wf(),
    ensures
        match outcome {
            FileOutcome::Exists => res == Model::FilenameInput(
                FilenameState {
                    input: filename,
                    status: FilenameStatus::Exists,
                    action: FilenameAction::Rename(load_state),
                },
            ),
            FileOutcome::Failed => res == Model::FilenameInput(
                FilenameState {
                    input: filename,
                    status: FilenameStatus::Invalid,
                    action: FilenameAction::Rename(load_state),
                },
            ),
            FileOutcome::Done(path) => res matches Model::Load(s) && s.index == load_state.index
                && s.files@ == load_state.files@.update(
                load_state.index as int,
                FileEntry { name: filename, path },
            ),
        },
{
    let status = match outcome {
        FileOutcome::Exists => FilenameStatus::Exists,
        FileOutcome::Failed => FilenameStatus::Invalid,
        FileOutcome::Done(path) => {
            let mut load_state = load_state;
            rename_selected_file(&mut load_state, filename, path);
            return Model::Load(load_state);
        },
    };
    Model::FilenameInput(FilenameState { input: filename, status, action: FilenameAction::Rename(load_state) })
}

/// The command that follows a save: show the files again, or quit.
pub fn after_save(post_save: PostSaveAction) -> (res: Command)
    ensures
        res == (match post_save {
            PostSaveAction::Load => Command::Load,
            PostSaveAction::Quit => Command::Quit,
        }),
{
    match post_save {
        PostSaveAction::Load => Command::Load,
        PostSaveAction::Quit => Command::Quit,
    }
}

/// The command after an attempt to save the session to a new file named
/// `filename`: what follows the save, or the filename input again with the
/// reason it failed.
pub fn after_save_new(
    filename: String,
    session: SessionState,
    post_save: PostSaveAction,
    outcome: FileOutcome,
) -> (res: Command)
    ensures
        match outcome {
            FileOutcome::Exists => res == Command::Continue(
                Model::FilenameInput(
                    FilenameState {
                        input: filename,
                        status: FilenameStatus::Exists,
                        action: FilenameAction::SaveNew { session, post_save },
                    },
                ),
            ),
            FileOutcome::Failed => res == Command::Continue(
                Model::FilenameInput(
                    FilenameState {
                        input: filename,
                        status: FilenameStatus::Invalid,
                        action: FilenameAction::SaveNew { session, post_save },
                    },
                ),
            ),
            FileOutcome::Done(_) => res == (match post_save {
                PostSaveAction::Load => Command::Load,
                PostSaveAction::Quit => Command::Quit,
            }),
        },
{
    let status = match outcome {
        FileOutcome::Exists => FilenameStatus::Exists,
        FileOutcome::Failed => FilenameStatus::Invalid,
        FileOutcome::Done(_) => return after_save(post_save),
    };
    Command::Continue(
        Model::FilenameInput(
            FilenameState { input: filename, status, action: FilenameAction::SaveNew { session, post_save } },
        ),
    )
}

} // verus!
