pub mod heap;

use std::path::PathBuf;

use vstd::prelude::*;

use crate::zipper::{
    FocusNode, FocusView, delete_v, insert_child_v, insert_next_v, insert_parent_v,
    insert_prev_v,
};

verus! {

/// A file system path; the library only carries it around.
#[verifier::external_type_specification]
#[verifier::external_body]
pub struct ExPathBuf(std::path::PathBuf);

/// Whether `c` has the Unicode White_Space property.
pub open spec fn is_white_space(c: char) -> bool {
    let u = c as int;
    ||| 0x9 <= u <= 0xd
    ||| u == 0x20
    ||| u == 0x85
    ||| u == 0xa0
    ||| u == 0x1680
    ||| 0x2000 <= u <= 0x200a
    ||| u == 0x2028
    ||| u == 0x2029
    ||| u == 0x202f
    ||| u == 0x205f
    ||| u == 0x3000
}

/// `s` without its leading white space.
pub open spec fn trim_start(s: Seq<char>) -> Seq<char>
    decreases s.len(),
{
    if s.len() > 0 && is_white_space(s[0]) {
        trim_start(s.drop_first())
    } else {
        s
    }
}

/// `s` without its trailing white space.
pub open spec fn trim_end(s: Seq<char>) -> Seq<char>
    decreases s.len(),
{
    if s.len() > 0 && is_white_space(s.last()) {
        trim_end(s.drop_last())
    } else {
        s
    }
}

/// `s` without its leading and trailing white space.
pub open spec fn trimmed(s: Seq<char>) -> Seq<char> {
    trim_end(trim_start(s))
}

/// `str::trim`: the slice of `s` without leading and trailing characters
/// that have the Unicode White_Space property.
#[verifier::external_body]
fn trim(s: &str) -> (res: &str)
    ensures
        res@ == trimmed(s@),
{
    s.trim()
}

/// `String::push`: append the character `c` to `s`.
#[verifier::external_body]
fn push_char(s: &mut String, c: char)
    ensures
        final(s)@ == old(s)@.push(c),
{
    s.push(c)
}

/// `String::pop`: remove and return the last character of `s`, if any.
#[verifier::external_body]
fn pop_char(s: &mut String) -> (res: Option<char>)
    ensures
        old(s)@.len() == 0 ==> res is None && final(s)@ == old(s)@,
        old(s)@.len() > 0 ==> res == Some(old(s)@.last()) && final(s)@ == old(s)@.drop_last(),
{
    s.pop()
}

/// The input after appending `c`, unless the input is empty and `c` is a
/// space (input does not start with a space).
pub open spec fn appended(input: Seq<char>, c: char) -> Seq<char> {
    if input.len() == 0 && c == ' ' {
        input
    } else {
        input.push(c)
    }
}

/// The input without its last character (unchanged when empty).
pub open spec fn popped(input: Seq<char>) -> Seq<char> {
    if input.len() == 0 {
        input
    } else {
        input.drop_last()
    }
}

/// `s` does not start with a space.
pub open spec fn no_leading_space(s: Seq<char>) -> bool {
    s.len() == 0 || s[0] != ' '
}

/// Text input never starts with a space: appending a character or removing
/// the last one keeps an input that does not start with a space so.
pub proof fn law_input_no_leading_space(input: Seq<char>, c: char)
    requires
        no_leading_space(input),
    ensures
        no_leading_space(appended(input, c)),
        no_leading_space(popped(input)),
{
    if input.len() > 0 {
        assert(input.push(c)[0] == input[0]);
        if input.len() > 1 {
            assert(input.drop_last()[0] == input[0]);
        }
    }
}

proof fn lemma_trim_start(s: Seq<char>) -> (k: int)
    ensures
        0 <= k <= s.len(),
        trim_start(s) == s.subrange(k, s.len() as int),
        trim_start(s).len() > 0 ==> !is_white_space(trim_start(s)[0]),
    decreases s.len(),
{
    if s.len() > 0 && is_white_space(s[0]) {
        let k = lemma_trim_start(s.drop_first());
        assert(s.drop_first().subrange(k, s.drop_first().len() as int) == s.subrange(
            k + 1,
            s.len() as int,
        ));
        k + 1
    } else {
        assert(s.subrange(0, s.len() as int) == s);
        0
    }
}

proof fn lemma_trim_end(s: Seq<char>) -> (m: int)
    ensures
        0 <= m <= s.len(),
        trim_end(s) == s.subrange(0, m),
        trim_end(s).len() > 0 ==> !is_white_space(trim_end(s).last()),
    decreases s.len(),
{
    if s.len() > 0 && is_white_space(s.last()) {
        let m = lemma_trim_end(s.drop_last());
        assert(s.drop_last().subrange(0, m) == s.subrange(0, m));
        m
    } else {
        assert(s.subrange(0, s.len() as int) == s);
        s.len() as int
    }
}

/// A trimmed text is a contiguous part of the text that neither starts nor
/// ends with white space.
pub proof fn law_trimmed(s: Seq<char>)
    ensures
        exists|i: int, j: int| 0 <= i <= j <= s.len() && trimmed(s) == s.subrange(i, j),
        trimmed(s).len() > 0 ==> !is_white_space(trimmed(s)[0]) && !is_white_space(
            trimmed(s).last(),
        ),
{
    let k = lemma_trim_start(s);
    let t = trim_start(s);
    let m = lemma_trim_end(t);
    assert(trimmed(s) == s.subrange(k, k + m));
    if trimmed(s).len() > 0 {
        assert(trimmed(s)[0] == t[0]);
    }
}

/// The `name` and `path` of a file.
pub struct FileEntry {
    pub name: String,
    pub path: PathBuf,
}

/// List of `files` in the app directory and `index` of the current selection.
pub struct LoadState {
    pub files: Vec<FileEntry>,
    pub index: usize,
}

/// The name and path of the data file of a session (the program that runs
/// the session keeps the file itself locked).
pub struct OpenDataFile {
    pub name: String,
    pub path: PathBuf,
}

/// Persistent state for an active session.
pub struct SessionState {
    pub focus: Option<FocusNode>,
    pub maybe_file: Option<OpenDataFile>,
    pub changed: bool,
}

/// Action to perform after saving.
#[derive(PartialEq, Eq, Debug, Clone, Copy)]
pub enum PostSaveAction {
    Load,
    Quit,
}

/// User's current save choice and subsequent action.
pub struct SaveState {
    pub save: bool,
    pub post_save: PostSaveAction,
    pub session: SessionState,
}

/// Action to perform with the user input label string.
#[derive(PartialEq, Eq, Debug, Clone, Copy)]
pub enum LabelAction {
    Insert,
    Rename,
}

/// Current user input label and action to be performed with it.
pub struct LabelState {
    pub input: String,
    pub action: LabelAction,
    pub session: SessionState,
}

/// Status of the user input filename string.
#[derive(PartialEq, Eq, Debug, Clone, Copy)]
pub enum FilenameStatus {
    Empty,
    Exists,
    Invalid,
    Valid,
}

/// Action to perform with the user input filename string.
pub enum FilenameAction {
    Rename(LoadState),
    SaveNew { session: SessionState, post_save: PostSaveAction },
}

/// Current user input filename with status and next action to be performed.
pub struct FilenameState {
    pub input: String,
    pub status: FilenameStatus,
    pub action: FilenameAction,
}

/// Action to be confirmed in Confirm mode.
pub enum ConfirmState {
    NewSession,
    DeleteItem(SessionState),
    DeleteFile(LoadState),
}

/// Complete application state, with a variant for each mode.
pub enum Model {
    Load(LoadState),
    Normal(SessionState),
    Insert(SessionState),
    Move(SessionState),
    Save(SaveState),
    LabelInput(LabelState),
    FilenameInput(FilenameState),
    Confirm(ConfirmState),
}

/// The view of an optional focus.
pub open spec fn focus_view(f: Option<FocusNode>) -> Option<FocusView> {
    match f {
        Some(n) => Some(n@),
        None => None,
    }
}

/// Apply a zipper operation to an optional focus view.
pub open spec fn map_view(f: Option<FocusView>, op: spec_fn(FocusView) -> FocusView) -> Option<FocusView> {
    match f {
        Some(v) => Some(op(v)),
        None => None,
    }
}

impl SessionState {
    /// `other` is this state with its focus replaced by one whose view is `f`.
    pub open spec fn with_focus(self, other: SessionState, f: Option<FocusView>) -> bool {
        &&& focus_view(other.focus) == f
        &&& other.maybe_file == self.maybe_file
        &&& other.changed == self.changed
    }
}

impl LoadState {
    /// Extract the selected FileEntry, consuming the instance.
    pub fn extract_selected(self) -> (res: FileEntry)
        requires
            self.index < self.files@.len(),
        ensures
            res == self.files@[self.index as int],
    {
        let mut files = self.files;
        files.swap_remove(self.index)
    }

    /// Decrement the `index`.
    pub fn decrement(self) -> (res: Self)
        ensures
            res.files == self.files,
            res.index == if self.index == 0 {
                0
            } else {
                self.index - 1
            },
    {
        if self.index == 0 {
            self
        } else {
            Self { index: self.index - 1, ..self }
        }
    }

    /// Increment the `index`.
    pub fn increment(self) -> (res: Self)
        requires
            self.index < usize::MAX,
        ensures
            res.files == self.files,
            res.index == if self.index + 1 == self.files@.len() {
                self.index as int
            } else {
                self.index + 1
            },
    {
        if self.index + 1 == self.files.len() {
            self
        } else {
            Self { index: self.index + 1, ..self }
        }
    }
}

impl LabelState {
    /// Create a LabelState to insert a new item.
    pub fn new_insert(session: SessionState) -> (res: Self)
        ensures
            res.input@ == Seq::<char>::empty(),
            res.action == LabelAction::Insert,
            res.session == session,
    {
        Self { input: String::new(), action: LabelAction::Insert, session }
    }

    /// Create a LabelState to rename the `label` of the focused node.
    pub fn new_rename(label: String, session: SessionState) -> (res: Self)
        ensures
            res.input == label,
            res.action == LabelAction::Rename,
            res.session == session,
    {
        Self { input: label, action: LabelAction::Rename, session }
    }

    /// Append a character to the input string, not starting with whitespace.
    pub fn append(self, c: char) -> (res: Self)
        ensures
            res.input@ == appended(self.input@, c),
            res.action == self.action,
            res.session == self.session,
    {
        let mut state = self;
        if !(state.input.as_str().is_empty() && c == ' ') {
            push_char(&mut state.input, c);
        }
        state
    }

    /// Pop a character from the input text.
    pub fn pop(self) -> (res: Self)
        ensures
            res.input@ == popped(self.input@),
            res.action == self.action,
            res.session == self.session,
    {
        let mut state = self;
        pop_char(&mut state.input);
        state
    }

    /// Set the label of the focused node to the trimmed user input.
    pub fn set_label(self) -> (res: SessionState)
        ensures
            focus_view(res.focus) == match focus_view(self.session.focus) {
                Some(v) => Some(FocusView { label: trimmed(self.input@), ..v }),
                None => None,
            },
            res.maybe_file == self.session.maybe_file,
            res.changed,
    {
        let Self { input, session, .. } = self;
        let label = trim(input.as_str()).to_owned();
        let focus = match session.focus {
            Some(focus) => Some(focus.set_label(label)),
            None => None,
        };
        SessionState { focus, changed: true, maybe_file: session.maybe_file }
    }
}

impl FilenameState {
    /// Create a FilenameState to rename a file.
    pub fn new_rename(load_state: LoadState) -> (res: Self)
        ensures
            res.input@ == Seq::<char>::empty(),
            res.status == FilenameStatus::Empty,
            res.action == FilenameAction::Rename(load_state),
    {
        Self {
            input: String::new(),
            status: FilenameStatus::Empty,
            action: FilenameAction::Rename(load_state),
        }
    }

    /// Create a FilenameState to save a new file.
    pub fn new_save(session: SessionState, post_save: PostSaveAction) -> (res: Self)
        ensures
            res.input@ == Seq::<char>::empty(),
            res.status == FilenameStatus::Empty,
            res.action == (FilenameAction::SaveNew { session, post_save }),
    {
        Self {
            input: String::new(),
            status: FilenameStatus::Empty,
            action: FilenameAction::SaveNew { session, post_save },
        }
    }

    /// Append a character to the input string, not starting with whitespace.
    pub fn append(self, c: char) -> (res: Self)
        ensures
            res.input@ == appended(self.input@, c),
            res.status == self.status,
            res.action == self.action,
    {
        let mut state = self;
        if !(state.input.as_str().is_empty() && c == ' ') {
            push_char(&mut state.input, c);
        }
        state
    }

    /// Pop a character from the input text.
    pub fn pop(self) -> (res: Self)
        ensures
            res.input@ == popped(self.input@),
            res.status == self.status,
            res.action == self.action,
    {
        let mut state = self;
        pop_char(&mut state.input);
        state
    }

    /// Set the filename status.
    pub fn set_status(self, status: FilenameStatus) -> (res: Self)
        ensures
            res.input == self.input,
            res.status == status,
            res.action == self.action,
    {
        Self { status, ..self }
    }

    /// Return whether the input is a valid filename.
    pub fn is_valid(&self) -> (res: bool)
        ensures
            res == (self.status == FilenameStatus::Valid),
    {
        match self.status {
            FilenameStatus::Valid => true,
            _ => false,
        }
    }

    /// Return a reference to the trimmed user input.
    pub fn trimmed(&self) -> (res: &str)
        ensures
            res@ == trimmed(self.input@),
    {
        trim(self.input.as_str())
    }
}

impl SaveState {
    /// Create a SaveState for subsequently loading.
    pub fn new_load(session: SessionState) -> (res: Self)
        ensures
            res == (SaveState { save: true, post_save: PostSaveAction::Load, session }),
    {
        Self { save: true, post_save: PostSaveAction::Load, session }
    }

    /// Create a SaveState for subsequently quitting.
    pub fn new_quit(session: SessionState) -> (res: Self)
        ensures
            res == (SaveState { save: true, post_save: PostSaveAction::Quit, session }),
    {
        Self { save: true, post_save: PostSaveAction::Quit, session }
    }

    /// Toggle the boolean indicating whether the user intends to save.
    pub fn toggle(self) -> (res: Self)
        ensures
            res == (SaveState { save: !self.save, ..self }),
    {
        Self { save: !self.save, ..self }
    }
}

impl SessionState {
    /// Create a SessionState with an empty forest and no saved file.
    pub fn new() -> (res: Self)
        ensures
            res.focus is None,
            res.maybe_file is None,
            !res.changed,
    {
        Self { focus: None, maybe_file: None, changed: false }
    }

    /// Apply a navigation function to the focused node.
    pub fn navigate<F>(self, f: F) -> (res: Self) where F: FnOnce(FocusNode) -> FocusNode
        requires
            match self.focus {
                Some(x) => call_requires(f, (x,)),
                None => true,
            },
        ensures
            res.maybe_file == self.maybe_file,
            res.changed == self.changed,
            match self.focus {
                Some(x) => res.focus matches Some(y) && call_ensures(f, (x,), y),
                None => res.focus is None,
            },
    {
        let focus = match self.focus {
            Some(x) => Some(f(x)),
            None => None,
        };
        Self { focus, ..self }
    }

    /// Apply a function to the focused node and track if a change occurred.
    pub fn map_focus<F>(self, f: F) -> (res: Self) where F: FnOnce(FocusNode) -> FocusNode
        requires
            match self.focus {
                Some(x) => call_requires(f, (x,)),
                None => true,
            },
        ensures
            res.maybe_file == self.maybe_file,
            match self.focus {
                Some(x) => res.focus matches Some(y) && call_ensures(f, (x,), y),
                None => res.focus is None,
            },
            res.changed == (self.changed || focus_view(res.focus) != focus_view(self.focus)),
    {
        let old_focus = match &self.focus {
            Some(x) => Some(x.clone()),
            None => None,
        };
        let new_focus = match self.focus {
            Some(x) => Some(f(x)),
            None => None,
        };
        let same = match (&new_focus, &old_focus) {
            (Some(a), Some(b)) => a.same_view(b),
            (None, None) => true,
            _ => false,
        };
        Self { changed: self.changed || !same, focus: new_focus, ..self }
    }

    /// Insert a new node as the parent of the focused node.
    pub fn insert_parent(self) -> (res: Self)
        ensures
            self.with_focus(res, map_view(focus_view(self.focus), |v| insert_parent_v(v))),
    {
        let focus = match self.focus {
            Some(x) => Some(x.insert_parent()),
            None => None,
        };
        Self { focus, ..self }
    }

    /// Insert a new child node above the focused node's children.
    pub fn insert_child(self) -> (res: Self)
        ensures
            self.with_focus(res, map_view(focus_view(self.focus), |v| insert_child_v(v))),
    {
        let focus = match self.focus {
            Some(x) => Some(x.insert_child()),
            None => None,
        };
        Self { focus, ..self }
    }

    /// Insert a new node as the previous sibling of the focused node.
    pub fn insert_prev(self) -> (res: Self)
        ensures
            self.with_focus(res, map_view(focus_view(self.focus), |v| insert_prev_v(v))),
    {
        let focus = match self.focus {
            Some(x) => Some(x.insert_prev()),
            None => None,
        };
        Self { focus, ..self }
    }

    /// Insert a new node as the next sibling of the focused node.
    pub fn insert_next(self) -> (res: Self)
        ensures
            self.with_focus(res, map_view(focus_view(self.focus), |v| insert_next_v(v))),
    {
        let focus = match self.focus {
            Some(x) => Some(x.insert_next()),
            None => None,
        };
        Self { focus, ..self }
    }

    /// Delete the selected item and optionally mark the state as changed.
    pub fn delete(self, commit_change: bool) -> (res: Self)
        ensures
            focus_view(res.focus) == match focus_view(self.focus) {
                Some(v) => delete_v(v),
                None => None,
            },
            res.maybe_file == self.maybe_file,
            res.changed == (self.changed || commit_change),
    {
        let focus = match self.focus {
            Some(x) => x.delete(),
            None => None,
        };
        Self { focus, changed: self.changed || commit_change, ..self }
    }

    /// Return a copy of the focused node's label, if there is a focus.
    pub fn clone_label(&self) -> (res: Option<String>)
        ensures
            match self.focus {
                Some(x) => res matches Some(l) && l@ == x@.label,
                None => res is None,
            },
    {
        match &self.focus {
            Some(x) => Some(x.clone_label()),
            None => None,
        }
    }

    /// Return the filename if it exists.
    pub fn get_filename(&self) -> (res: Option<&str>)
        ensures
            match self.maybe_file {
                Some(file) => res matches Some(name) && name@ == file.name@,
                None => res is None,
            },
    {
        match &self.maybe_file {
            Some(file) => Some(file.name.as_str()),
            None => None,
        }
    }

    /// Return the forest and data file path (if present) from the session state.
    pub fn unlock_state(self) -> (res: (Option<FocusNode>, Option<PathBuf>))
        ensures
            res.0 == self.focus,
            match self.maybe_file {
                Some(file) => res.1 == Some(file.path),
                None => res.1 is None,
            },
    {
        let Self { focus, maybe_file, .. } = self;
        let maybe_path = match maybe_file {
            Some(open_file) => Some(open_file.path),
            None => None,
        };
        (focus, maybe_path)
    }
}

} // verus!
