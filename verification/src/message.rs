use vstd::prelude::*;

use crate::model::{
    ConfirmState, FilenameState, LabelState, LoadState, Model, SaveState, SessionState,
};

verus! {

/// A key that the user pressed.
#[derive(PartialEq, Eq, Debug, Clone, Copy)]
pub enum Key {
    Char(char),
    Up,
    Down,
    Left,
    Right,
    Enter,
    Backspace,
    Esc,
    Other,
}

/// A message sent in Load mode.
#[derive(PartialEq, Eq, Debug, Clone, Copy)]
pub enum LoadMsg {
    Decrement,
    Increment,
    Open,
    New,
    Rename,
    Delete,
    Quit,
}

/// A message sent in Normal mode.
#[derive(PartialEq, Eq, Debug, Clone, Copy)]
pub enum NormalMsg {
    Ascend,
    Descend,
    Previous,
    Next,
    Rename,
    Insert,
    Move,
    Nest,
    Flatten,
    Delete,
    Load,
    Quit,
}

/// A message sent in Insert mode.
#[derive(PartialEq, Eq, Debug, Clone, Copy)]
pub enum InsertMsg {
    Parent,
    Child,
    Before,
    After,
    Back,
}

/// A message sent in Move mode.
#[derive(PartialEq, Eq, Debug, Clone, Copy)]
pub enum MoveMsg {
    Promote,
    Demote,
    Backward,
    Forward,
    Done,
}

/// Type of edit to apply to the user input text.
#[derive(PartialEq, Eq, Debug, Clone, Copy)]
pub enum InputEdit {
    Append(char),
    PopChar,
}

/// A message sent in Label Input mode.
#[derive(PartialEq, Eq, Debug, Clone, Copy)]
pub enum LabelMsg {
    Edit(InputEdit),
    Submit,
    Cancel,
}

/// A message sent in Save mode.
#[derive(PartialEq, Eq, Debug, Clone, Copy)]
pub enum SaveMsg {
    Toggle,
    Confirm,
    Cancel,
}

/// A message sent in Filename Input mode.
#[derive(PartialEq, Eq, Debug, Clone, Copy)]
pub enum FilenameMsg {
    Edit(InputEdit),
    Submit,
    Cancel,
}

/// A message sent in Confirm mode.
#[derive(PartialEq, Eq, Debug, Clone, Copy)]
pub enum ConfirmMsg {
    Confirm,
    Cancel,
}

/// A message indicating changes to be made to the model.
pub enum Message {
    Load(LoadMsg, LoadState),
    Normal(NormalMsg, SessionState),
    Insert(InsertMsg, SessionState),
    Move(MoveMsg, SessionState),
    LabelInput(LabelMsg, LabelState),
    Save(SaveMsg, SaveState),
    FilenameInput(FilenameMsg, FilenameState),
    Confirm(ConfirmMsg, ConfirmState),
    Continue(Model),
}

/// The Load mode message that a key sends, if any.
pub open spec fn load_msg_of(key: Key) -> Option<LoadMsg> {
    match key {
        Key::Char('k') | Key::Up => Some(LoadMsg::Decrement),
        Key::Char('j') | Key::Down => Some(LoadMsg::Increment),
        Key::Char('n') => Some(LoadMsg::New),
        Key::Char('r') => Some(LoadMsg::Rename),
        Key::Char('d') => Some(LoadMsg::Delete),
        Key::Char('q') => Some(LoadMsg::Quit),
        Key::Enter => Some(LoadMsg::Open),
        _ => None,
    }
}

/// The Normal mode message that a key sends, if any.
pub open spec fn normal_msg_of(key: Key) -> Option<NormalMsg> {
    match key {
        Key::Char('h') | Key::Left => Some(NormalMsg::Ascend),
        Key::Char('l') | Key::Right => Some(NormalMsg::Descend),
        Key::Char('k') | Key::Up => Some(NormalMsg::Previous),
        Key::Char('j') | Key::Down => Some(NormalMsg::Next),
        Key::Char('r') => Some(NormalMsg::Rename),
        Key::Char('i') => Some(NormalMsg::Insert),
        Key::Char('m') => Some(NormalMsg::Move),
        Key::Char('n') => Some(NormalMsg::Nest),
        Key::Char('f') => Some(NormalMsg::Flatten),
        Key::Char('d') => Some(NormalMsg::Delete),
        Key::Char('q') => Some(NormalMsg::Quit),
        Key::Backspace => Some(NormalMsg::Load),
        _ => None,
    }
}

/// The Insert mode message that a key sends, if any.
pub open spec fn insert_msg_of(key: Key) -> Option<InsertMsg> {
    match key {
        Key::Char('h') => Some(InsertMsg::Parent),
        Key::Char('l') => Some(InsertMsg::Child),
        Key::Char('k') => Some(InsertMsg::Before),
        Key::Char('j') => Some(InsertMsg::After),
        Key::Backspace => Some(InsertMsg::Back),
        _ => None,
    }
}

/// The Move mode message that a key sends, if any.
pub open spec fn move_msg_of(key: Key) -> Option<MoveMsg> {
    match key {
        Key::Char('h') | Key::Left => Some(MoveMsg::Promote),
        Key::Char('l') | Key::Right => Some(MoveMsg::Demote),
        Key::Char('k') | Key::Up => Some(MoveMsg::Backward),
        Key::Char('j') | Key::Down => Some(MoveMsg::Forward),
        Key::Enter => Some(MoveMsg::Done),
        _ => None,
    }
}

/// The text input message that a key sends, if any (as a label message).
pub open spec fn label_msg_of(key: Key) -> Option<LabelMsg> {
    match key {
        Key::Char(c) => Some(LabelMsg::Edit(InputEdit::Append(c))),
        Key::Backspace => Some(LabelMsg::Edit(InputEdit::PopChar)),
        Key::Enter => Some(LabelMsg::Submit),
        Key::Esc => Some(LabelMsg::Cancel),
        _ => None,
    }
}

/// The Save mode message that a key sends, if any.
pub open spec fn save_msg_of(key: Key) -> Option<SaveMsg> {
    match key {
        Key::Char(' ') => Some(SaveMsg::Toggle),
        Key::Enter => Some(SaveMsg::Confirm),
        Key::Esc => Some(SaveMsg::Cancel),
        _ => None,
    }
}

/// The Filename Input mode message that a key sends, if any.
pub open spec fn filename_msg_of(key: Key) -> Option<FilenameMsg> {
    match key {
        Key::Char(c) => Some(FilenameMsg::Edit(InputEdit::Append(c))),
        Key::Backspace => Some(FilenameMsg::Edit(InputEdit::PopChar)),
        Key::Enter => Some(FilenameMsg::Submit),
        Key::Esc => Some(FilenameMsg::Cancel),
        _ => None,
    }
}

/// The Confirm mode message that a key sends, if any.
pub open spec fn confirm_msg_of(key: Key) -> Option<ConfirmMsg> {
    match key {
        Key::Enter => Some(ConfirmMsg::Confirm),
        Key::Esc => Some(ConfirmMsg::Cancel),
        _ => None,
    }
}

/// Map a `key` to a Message in Load mode.
pub fn to_load_msg(key: Key, state: LoadState) -> (res: Message)
    ensures
        res == match load_msg_of(key) {
            Some(m) => Message::Load(m, state),
            None => Message::Continue(Model::Load(state)),
        },
{
    let msg = match key {
        Key::Char('k') => LoadMsg::Decrement,
        Key::Char('j') => LoadMsg::Increment,
        Key::Char('n') => LoadMsg::New,
        Key::Char('r') => LoadMsg::Rename,
        Key::Char('d') => LoadMsg::Delete,
        Key::Char('q') => LoadMsg::Quit,
        Key::Down => LoadMsg::Increment,
        Key::Up => LoadMsg::Decrement,
        Key::Enter => LoadMsg::Open,
        _ => return Message::Continue(Model::Load(state)),
    };
    Message::Load(msg, state)
}

/// Map a `key` to a Message in Normal mode.
pub fn to_normal_msg(key: Key, state: SessionState) -> (res: Message)
    ensures
        res == match normal_msg_of(key) {
            Some(m) => Message::Normal(m, state),
            None => Message::Continue(Model::Normal(state)),
        },
{
    let msg = match key {
        Key::Char('h') => NormalMsg::Ascend,
        Key::Char('l') => NormalMsg::Descend,
        Key::Char('k') => NormalMsg::Previous,
        Key::Char('j') => NormalMsg::Next,
        Key::Char('r') => NormalMsg::Rename,
        Key::Char('i') => NormalMsg::Insert,
        Key::Char('m') => NormalMsg::Move,
        Key::Char('n') => NormalMsg::Nest,
        Key::Char('f') => NormalMsg::Flatten,
        Key::Char('d') => NormalMsg::Delete,
        Key::Char('q') => NormalMsg::Quit,
        Key::Left => NormalMsg::Ascend,
        Key::Right => NormalMsg::Descend,
        Key::Up => NormalMsg::Previous,
        Key::Down => NormalMsg::Next,
        Key::Backspace => NormalMsg::Load,
        _ => return Message::Continue(Model::Normal(state)),
    };
    Message::Normal(msg, state)
}

/// Map a `key` to a Message in Insert mode.
pub fn to_insert_msg(key: Key, state: SessionState) -> (res: Message)
    ensures
        res == match insert_msg_of(key) {
            Some(m) => Message::Insert(m, state),
            None => Message::Continue(Model::Insert(state)),
        },
{
    let msg = match key {
        Key::Char('h') => InsertMsg::Parent,
        Key::Char('l') => InsertMsg::Child,
        Key::Char('k') => InsertMsg::Before,
        Key::Char('j') => InsertMsg::After,
        Key::Backspace => InsertMsg::Back,
        _ => return Message::Continue(Model::Insert(state)),
    };
    Message::Insert(msg, state)
}

/// Map a `key` to a Message in Move mode.
pub fn to_move_msg(key: Key, state: SessionState) -> (res: Message)
    ensures
        res == match move_msg_of(key) {
            Some(m) => Message::Move(m, state),
            None => Message::Continue(Model::Move(state)),
        },
{
    let msg = match key {
        Key::Char('h') | Key::Left => MoveMsg::Promote,
        Key::Char('l') | Key::Right => MoveMsg::Demote,
        Key::Char('k') | Key::Up => MoveMsg::Backward,
        Key::Char('j') | Key::Down => MoveMsg::Forward,
        Key::Enter => MoveMsg::Done,
        _ => return Message::Continue(Model::Move(state)),
    };
    Message::Move(msg, state)
}

/// Map a `key` to a Message in Label Input mode.
pub fn to_label_input_msg(key: Key, state: LabelState) -> (res: Message)
    ensures
        res == match label_msg_of(key) {
            Some(m) => Message::LabelInput(m, state),
            None => Message::Continue(Model::LabelInput(state)),
        },
{
    let msg = match key {
        Key::Char(c) => LabelMsg::Edit(InputEdit::Append(c)),
        Key::Backspace => LabelMsg::Edit(InputEdit::PopChar),
        Key::Enter => LabelMsg::Submit,
        Key::Esc => LabelMsg::Cancel,
        _ => return Message::Continue(Model::LabelInput(state)),
    };
    Message::LabelInput(msg, state)
}

/// Map a `key` to a Message in Save mode.
pub fn to_save_msg(key: Key, state: SaveState) -> (res: Message)
    ensures
        res == match save_msg_of(key) {
            Some(m) => Message::Save(m, state),
            None => Message::Continue(Model::Save(state)),
        },
{
    let msg = match key {
        Key::Char(' ') => SaveMsg::Toggle,
        Key::Enter => SaveMsg::Confirm,
        Key::Esc => SaveMsg::Cancel,
        _ => return Message::Continue(Model::Save(state)),
    };
    Message::Save(msg, state)
}

/// Map a `key` to a Message in Filename Input mode.
pub fn to_filename_input_msg(key: Key, state: FilenameState) -> (res: Message)
    ensures
        res == match filename_msg_of(key) {
            Some(m) => Message::FilenameInput(m, state),
            None => Message::Continue(Model::FilenameInput(state)),
        },
{
    let msg = match key {
        Key::Char(c) => FilenameMsg::Edit(InputEdit::Append(c)),
        Key::Backspace => FilenameMsg::Edit(InputEdit::PopChar),
        Key::Enter => FilenameMsg::Submit,
        Key::Esc => FilenameMsg::Cancel,
        _ => return Message::Continue(Model::FilenameInput(state)),
    };
    Message::FilenameInput(msg, state)
}

/// Map a `key` to a Message in Confirm mode.
pub fn to_confirm_msg(key: Key, state: ConfirmState) -> (res: Message)
    ensures
        res == match confirm_msg_of(key) {
            Some(m) => Message::Confirm(m, state),
            None => Message::Continue(Model::Confirm(state)),
        },
{
    let msg = match key {
        Key::Enter => ConfirmMsg::Confirm,
        Key::Esc => ConfirmMsg::Cancel,
        _ => return Message::Continue(Model::Confirm(state)),
    };
    Message::Confirm(msg, state)
}

/// Map a pressed `key` to a Message based on the current `model`.
pub fn key_to_message(model: Model, key: Key) -> (res: Message)
    ensures
        res == match model {
            Model::Load(s) => match load_msg_of(key) {
                Some(m) => Message::Load(m, s),
                None => Message::Continue(Model::Load(s)),
            },
            Model::Normal(s) => match normal_msg_of(key) {
                Some(m) => Message::Normal(m, s),
                None => Message::Continue(Model::Normal(s)),
            },
            Model::Insert(s) => match insert_msg_of(key) {
                Some(m) => Message::Insert(m, s),
                None => Message::Continue(Model::Insert(s)),
            },
            Model::Move(s) => match move_msg_of(key) {
                Some(m) => Message::Move(m, s),
                None => Message::Continue(Model::Move(s)),
            },
            Model::LabelInput(s) => match label_msg_of(key) {
                Some(m) => Message::LabelInput(m, s),
                None => Message::Continue(Model::LabelInput(s)),
            },
            Model::Save(s) => match save_msg_of(key) {
                Some(m) => Message::Save(m, s),
                None => Message::Continue(Model::Save(s)),
            },
            Model::FilenameInput(s) => match filename_msg_of(key) {
                Some(m) => Message::FilenameInput(m, s),
                None => Message::Continue(Model::FilenameInput(s)),
            },
            Model::Confirm(s) => match confirm_msg_of(key) {
                Some(m) => Message::Confirm(m, s),
                None => Message::Continue(Model::Confirm(s)),
            },
        },
{
    match model {
        Model::Load(load_state) => to_load_msg(key, load_state),
        Model::Normal(session_state) => to_normal_msg(key, session_state),
        Model::Insert(session_state) => to_insert_msg(key, session_state),
        Model::Move(session_state) => to_move_msg(key, session_state),
        Model::LabelInput(label_state) => to_label_input_msg(key, label_state),
        Model::Save(save_state) => to_save_msg(key, save_state),
        Model::FilenameInput(filename_state) => to_filename_input_msg(key, filename_state),
        Model::Confirm(confirm_state) => to_confirm_msg(key, confirm_state),
    }
}

} // verus!
