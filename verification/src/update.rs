use vstd::prelude::*;

use crate::io::Command;
use crate::message::{
    ConfirmMsg, FilenameMsg, InputEdit, InsertMsg, LabelMsg, LoadMsg, Message, MoveMsg,
    NormalMsg, SaveMsg,
};
use crate::model::{
    ConfirmState, FilenameAction, FilenameState, FilenameStatus, LabelAction, LabelState,
    LoadState, Model, PostSaveAction, SaveState, SessionState, appended, focus_view, map_view,
    popped, trimmed,
};
use crate::zipper::items::{items, law_delete_removes_focus_item, law_rearranging_keeps_items};
use crate::zipper::{
    FocusNode, FocusView, to_forest, delete_v, demote_v, flatten_v, focus_child_v, focus_next_v,
    focus_parent_v, focus_prev_v, insert_child_v, insert_next_v, insert_parent_v, insert_prev_v,
    nest_v, promote_v, swap_next_v, swap_prev_v,
};

pub mod laws;

verus! {

/// `s2` is `s` after applying the navigation `op` to its focus.
pub open spec fn navigated(s: SessionState, s2: SessionState, op: spec_fn(FocusView) -> FocusView) -> bool {
    s.with_focus(s2, map_view(focus_view(s.focus), op))
}

/// `s2` is `s` after applying the edit `op` to its focus, marked as changed
/// when the focus changed.
pub open spec fn edited(s: SessionState, s2: SessionState, op: spec_fn(FocusView) -> FocusView) -> bool {
    &&& focus_view(s2.focus) == map_view(focus_view(s.focus), op)
    &&& s2.maybe_file == s.maybe_file
    &&& s2.changed == (s.changed || focus_view(s2.focus) != focus_view(s.focus))
}

/// `l` is a fresh label input for inserting a node into the session `s`.
pub open spec fn fresh_insert(l: LabelState, s: SessionState) -> bool {
    &&& l.input@ == Seq::<char>::empty()
    &&& l.action == LabelAction::Insert
    &&& l.session == s
}

/// `res` is what a Load mode message `msg` gives.
pub open spec fn load_outcome(msg: LoadMsg, load_state: LoadState, res: Command) -> bool {
    match msg {
        LoadMsg::Decrement => res == Command::Continue(
            Model::Load(
                LoadState {
                    files: load_state.files,
                    index: if load_state.index == 0 {
                        0
                    } else {
                        (load_state.index - 1) as usize
                    },
                },
            ),
        ),
        LoadMsg::Increment => res == Command::Continue(
            Model::Load(
                LoadState {
                    files: load_state.files,
                    index: if load_state.index + 1 == load_state.files@.len() {
                        load_state.index
                    } else {
                        (load_state.index + 1) as usize
                    },
                },
            ),
        ),
        LoadMsg::Open => res == Command::InitSession(load_state.files@[load_state.index as int]),
        LoadMsg::New => res == Command::Continue(
            Model::Normal(SessionState { focus: None, maybe_file: None, changed: false }),
        ),
        LoadMsg::Rename => res matches Command::Continue(Model::FilenameInput(f)) && f.input@
            == Seq::<char>::empty() && f.status == FilenameStatus::Empty && f.action
            == FilenameAction::Rename(load_state),
        LoadMsg::Delete => res == Command::Continue(
            Model::Confirm(ConfirmState::DeleteFile(load_state)),
        ),
        LoadMsg::Quit => res == Command::Quit,
    }
}

/// Update the Model based on a Load mode message.
pub fn update_load(msg: LoadMsg, load_state: LoadState) -> (res: Command)
    requires
        msg is Open ==> load_state.wf(),
        msg is Increment ==> load_state.index < usize::MAX,
    ensures
        load_outcome(msg, load_state, res),
{
    let model = match msg {
        LoadMsg::Decrement => Model::Load(load_state.decrement()),
        LoadMsg::Increment => Model::Load(load_state.increment()),
        LoadMsg::Open => {
            let file_entry = load_state.extract_selected();
            return Command::InitSession(file_entry);
        },
        LoadMsg::New => Model::Normal(SessionState::new()),
        LoadMsg::Rename => Model::FilenameInput(FilenameState::new_rename(load_state)),
        LoadMsg::Delete => Model::Confirm(ConfirmState::DeleteFile(load_state)),
        LoadMsg::Quit => return Command::Quit,
    };
    Command::Continue(model)
}

/// `res` is what a Normal mode message `msg` gives.
pub open spec fn normal_outcome(msg: NormalMsg, state: SessionState, res: Command) -> bool {
    match msg {
        NormalMsg::Ascend => res matches Command::Continue(Model::Normal(s)) && navigated(
            state,
            s,
            |v| focus_parent_v(v),
        ),
        NormalMsg::Descend => res matches Command::Continue(Model::Normal(s)) && navigated(
            state,
            s,
            |v| focus_child_v(v),
        ),
        NormalMsg::Previous => res matches Command::Continue(Model::Normal(s)) && navigated(
            state,
            s,
            |v| focus_prev_v(v),
        ),
        NormalMsg::Next => res matches Command::Continue(Model::Normal(s)) && navigated(
            state,
            s,
            |v| focus_next_v(v),
        ),
        NormalMsg::Rename => match state.focus {
            Some(f) => res matches Command::Continue(Model::LabelInput(l)) && l.input@ == f@.label
                && l.action == LabelAction::Rename && l.session == state,
            None => res == Command::Continue(Model::Normal(state)),
        },
        NormalMsg::Insert => match state.focus {
            Some(_) => res == Command::Continue(Model::Insert(state)),
            None => {
                &&& res matches Command::Continue(Model::LabelInput(l))
                &&& l.input@ == Seq::<char>::empty()
                &&& l.action == LabelAction::Insert
                &&& l.session.maybe_file == state.maybe_file
                &&& l.session.changed == state.changed
                &&& l.session.focus matches Some(f)
                &&& f@ == (FocusView {
                    parents: Seq::empty(),
                    prev: Seq::empty(),
                    label: Seq::empty(),
                    child: crate::lcrs::Lcrs::Empty,
                    next: crate::lcrs::Lcrs::Empty,
                })
            },
        },
        NormalMsg::Move => res == Command::Continue(Model::Move(state)),
        NormalMsg::Nest => res matches Command::Continue(Model::Normal(s)) && edited(
            state,
            s,
            |v| nest_v(v),
        ),
        NormalMsg::Flatten => res matches Command::Continue(Model::Normal(s)) && edited(
            state,
            s,
            |v| flatten_v(v),
        ),
        NormalMsg::Delete => match state.focus {
            Some(_) => res == Command::Continue(Model::Confirm(ConfirmState::DeleteItem(state))),
            None => res == Command::Continue(Model::Normal(state)),
        },
        NormalMsg::Load => if state.changed {
            res == Command::Continue(
                Model::Save(SaveState { save: true, post_save: PostSaveAction::Load, session: state }),
            )
        } else {
            res == Command::Load
        },
        NormalMsg::Quit => if state.changed {
            res == Command::Continue(
                Model::Save(SaveState { save: true, post_save: PostSaveAction::Quit, session: state }),
            )
        } else {
            res == Command::Quit
        },
    }
}

/// Update the Model based on a Normal mode message.
pub fn update_normal(msg: NormalMsg, state: SessionState) -> (res: Command)
    ensures
        normal_outcome(msg, state, res),
{
    let model = match msg {
        NormalMsg::Ascend => Model::Normal(state.navigate(FocusNode::focus_parent)),
        NormalMsg::Descend => Model::Normal(state.navigate(FocusNode::focus_child)),
        NormalMsg::Previous => Model::Normal(state.navigate(FocusNode::focus_prev)),
        NormalMsg::Next => Model::Normal(state.navigate(FocusNode::focus_next)),
        NormalMsg::Rename => match state.clone_label() {
            Some(label) => Model::LabelInput(LabelState::new_rename(label, state)),
            None => Model::Normal(state),
        },
        NormalMsg::Insert => if state.focus.is_some() {
            Model::Insert(state)
        } else {
            let state = SessionState { focus: Some(FocusNode::new()), ..state };
            Model::LabelInput(LabelState::new_insert(state))
        },
        NormalMsg::Move => Model::Move(state),
        NormalMsg::Nest => Model::Normal(state.map_focus(FocusNode::nest)),
        NormalMsg::Flatten => Model::Normal(state.map_focus(FocusNode::flatten)),
        NormalMsg::Delete => if state.focus.is_some() {
            Model::Confirm(ConfirmState::DeleteItem(state))
        } else {
            Model::Normal(state)
        },
        NormalMsg::Load => if state.changed {
            Model::Save(SaveState::new_load(state))
        } else {
            return Command::Load
        },
        NormalMsg::Quit => if state.changed {
            Model::Save(SaveState::new_quit(state))
        } else {
            return Command::Quit
        },
    };
    Command::Continue(model)
}

/// `res` is what an Insert mode message `msg` gives.
pub open spec fn insert_outcome(msg: InsertMsg, state: SessionState, res: Model) -> bool {
    match msg {
        InsertMsg::Parent => res matches Model::LabelInput(l) && l.input@ == Seq::<char>::empty()
            && l.action == LabelAction::Insert && navigated(state, l.session, |v| insert_parent_v(v)),
        InsertMsg::Child => res matches Model::LabelInput(l) && l.input@ == Seq::<char>::empty()
            && l.action == LabelAction::Insert && navigated(state, l.session, |v| insert_child_v(v)),
        InsertMsg::Before => res matches Model::LabelInput(l) && l.input@ == Seq::<char>::empty()
            && l.action == LabelAction::Insert && navigated(state, l.session, |v| insert_prev_v(v)),
        InsertMsg::After => res matches Model::LabelInput(l) && l.input@ == Seq::<char>::empty()
            && l.action == LabelAction::Insert && navigated(state, l.session, |v| insert_next_v(v)),
        InsertMsg::Back => res == Model::Normal(state),
    }
}

/// Update the Model based on an Insert mode message.
pub fn update_insert(msg: InsertMsg, state: SessionState) -> (res: Model)
    ensures
        insert_outcome(msg, state, res),
{
    let state = match msg {
        InsertMsg::Parent => state.insert_parent(),
        InsertMsg::Child => state.insert_child(),
        InsertMsg::Before => state.insert_prev(),
        InsertMsg::After => state.insert_next(),
        InsertMsg::Back => return Model::Normal(state),
    };
    Model::LabelInput(LabelState::new_insert(state))
}

/// `res` is what a Move mode message `msg` gives.
pub open spec fn move_outcome(msg: MoveMsg, state: SessionState, res: Model) -> bool {
    match msg {
        MoveMsg::Promote => res matches Model::Move(s) && edited(state, s, |v| promote_v(v)),
        MoveMsg::Demote => res matches Model::Move(s) && edited(state, s, |v| demote_v(v)),
        MoveMsg::Backward => res matches Model::Move(s) && edited(state, s, |v| swap_prev_v(v)),
        MoveMsg::Forward => res matches Model::Move(s) && edited(state, s, |v| swap_next_v(v)),
        MoveMsg::Done => res == Model::Normal(state),
    }
}

/// Update the Model based on a Move mode message.
pub fn update_move(msg: MoveMsg, state: SessionState) -> (res: Model)
    ensures
        move_outcome(msg, state, res),
{
    let state = match msg {
        MoveMsg::Promote => state.map_focus(FocusNode::promote),
        MoveMsg::Demote => state.map_focus(FocusNode::demote),
        MoveMsg::Backward => state.map_focus(FocusNode::swap_prev),
        MoveMsg::Forward => state.map_focus(FocusNode::swap_next),
        MoveMsg::Done => return Model::Normal(state),
    };
    Model::Move(state)
}

/// `res` is what a Save mode message `msg` gives.
pub open spec fn save_outcome(msg: SaveMsg, save_state: SaveState, res: Command) -> bool {
    match msg {
        SaveMsg::Toggle => res == Command::Continue(
            Model::Save(SaveState { save: !save_state.save, ..save_state }),
        ),
        SaveMsg::Confirm => if save_state.save {
            if save_state.session.maybe_file is Some {
                res == Command::Save(save_state.session, save_state.post_save)
            } else {
                res matches Command::Continue(Model::FilenameInput(f)) && f.input@
                    == Seq::<char>::empty() && f.status == FilenameStatus::Empty && f.action
                    == (FilenameAction::SaveNew {
                    session: save_state.session,
                    post_save: save_state.post_save,
                })
            }
        } else {
            match save_state.post_save {
                PostSaveAction::Load => res == Command::Load,
                PostSaveAction::Quit => res == Command::Quit,
            }
        },
        SaveMsg::Cancel => res == Command::Continue(Model::Normal(save_state.session)),
    }
}

/// Update the Model based on a Save mode message.
pub fn update_save(msg: SaveMsg, save_state: SaveState) -> (res: Command)
    ensures
        save_outcome(msg, save_state, res),
{
    let model = match msg {
        SaveMsg::Toggle => Model::Save(save_state.toggle()),
        SaveMsg::Confirm => {
            let SaveState { save, post_save, session } = save_state;
            if save {
                if session.maybe_file.is_some() {
                    return Command::Save(session, post_save);
                } else {
                    let state = FilenameState::new_save(session, post_save);
                    Model::FilenameInput(state)
                }
            } else {
                match post_save {
                    PostSaveAction::Load => return Command::Load,
                    PostSaveAction::Quit => return Command::Quit,
                }
            }
        },
        SaveMsg::Cancel => Model::Normal(save_state.session),
    };
    Command::Continue(model)
}

/// `res` is what a Label Input mode message `msg` gives.
pub open spec fn label_outcome(msg: LabelMsg, label_state: LabelState, res: Model) -> bool {
    match msg {
        LabelMsg::Edit(InputEdit::Append(c)) => res matches Model::LabelInput(l) && l.input@
            == appended(label_state.input@, c) && l.action == label_state.action && l.session
            == label_state.session,
        LabelMsg::Edit(InputEdit::PopChar) => res matches Model::LabelInput(l) && l.input@
            == popped(label_state.input@) && l.action == label_state.action && l.session
            == label_state.session,
        LabelMsg::Submit => if label_state.input@.len() == 0 {
            res == Model::LabelInput(label_state)
        } else {
            res matches Model::Normal(s) && s.changed && s.maybe_file
                == label_state.session.maybe_file && focus_view(s.focus) == match focus_view(
                label_state.session.focus,
            ) {
                Some(v) => Some(FocusView { label: trimmed(label_state.input@), ..v }),
                None => None,
            }
        },
        LabelMsg::Cancel => match label_state.action {
            LabelAction::Insert => res matches Model::Normal(s) && s.maybe_file
                == label_state.session.maybe_file && s.changed == label_state.session.changed
                && focus_view(s.focus) == match focus_view(label_state.session.focus) {
                Some(v) => delete_v(v),
                None => None,
            },
            LabelAction::Rename => res == Model::Normal(label_state.session),
        },
    }
}

/// Update the Model based on a Label Input mode message.
pub fn update_label_input(msg: LabelMsg, label_state: LabelState) -> (res: Model)
    ensures
        label_outcome(msg, label_state, res),
{
    match msg {
        LabelMsg::Edit(edit) => {
            let label_state = match edit {
                InputEdit::Append(c) => label_state.append(c),
                InputEdit::PopChar => label_state.pop(),
            };
            Model::LabelInput(label_state)
        },
        LabelMsg::Submit => if label_state.input.as_str().is_empty() {
            Model::LabelInput(label_state)
        } else {
            Model::Normal(label_state.set_label())
        },
        LabelMsg::Cancel => {
            let state = match label_state.action {
                LabelAction::Insert => label_state.session.delete(false),
                LabelAction::Rename => label_state.session,
            };
            Model::Normal(state)
        },
    }
}

/// `res` is what a Filename Input mode message `msg` gives.
pub open spec fn filename_outcome(msg: FilenameMsg, filename_state: FilenameState, res: Command) -> bool {
    match msg {
        FilenameMsg::Edit(edit) => {
            let input = match edit {
                InputEdit::Append(c) => appended(filename_state.input@, c),
                InputEdit::PopChar => popped(filename_state.input@),
            };
            if input.len() == 0 {
                res matches Command::Continue(Model::FilenameInput(f)) && f.input@ == input
                    && f.status == FilenameStatus::Empty && f.action == filename_state.action
            } else {
                res matches Command::CheckFileExists(f) && f.input@ == input && f.status
                    == filename_state.status && f.action == filename_state.action
            }
        },
        FilenameMsg::Submit => if filename_state.input@.len() == 0 {
            res matches Command::Continue(Model::FilenameInput(f)) && f.input
                == filename_state.input && f.status == FilenameStatus::Empty && f.action
                == filename_state.action
        } else {
            match filename_state.action {
                FilenameAction::Rename(load_state) => res matches Command::RenameFile(
                    name,
                    l,
                ) && name@ == trimmed(filename_state.input@) && l == load_state,
                FilenameAction::SaveNew { session, post_save } => res matches Command::SaveNew(
                    name,
                    s,
                    p,
                ) && name@ == trimmed(filename_state.input@) && s == session && p == post_save,
            }
        },
        FilenameMsg::Cancel => match filename_state.action {
            FilenameAction::Rename(load_state) => res == Command::Continue(Model::Load(load_state)),
            FilenameAction::SaveNew { session, .. } => res == Command::Continue(
                Model::Normal(session),
            ),
        },
    }
}

/// Update the Model based on a Filename Input mode message.
pub fn update_filename_input(msg: FilenameMsg, filename_state: FilenameState) -> (res: Command)
    ensures
        filename_outcome(msg, filename_state, res),
{
    let filename_state = match msg {
        FilenameMsg::Edit(edit) => {
            let filename_state = match edit {
                InputEdit::Append(c) => filename_state.append(c),
                InputEdit::PopChar => filename_state.pop(),
            };
            if filename_state.input.as_str().is_empty() {
                filename_state.set_status(FilenameStatus::Empty)
            } else {
                return Command::CheckFileExists(filename_state)
            }
        },
        FilenameMsg::Submit => if filename_state.input.as_str().is_empty() {
            filename_state.set_status(FilenameStatus::Empty)
        } else {
            let filename = filename_state.trimmed().to_owned();
            return match filename_state.action {
                FilenameAction::Rename(load_state) => Command::RenameFile(filename, load_state),
                FilenameAction::SaveNew { session, post_save } => Command::SaveNew(
                    filename,
                    session,
                    post_save,
                ),
            }
        },
        FilenameMsg::Cancel => {
            let model = match filename_state.action {
                FilenameAction::Rename(load_state) => Model::Load(load_state),
                FilenameAction::SaveNew { session, .. } => Model::Normal(session),
            };
            return Command::Continue(model);
        },
    };
    Command::Continue(Model::FilenameInput(filename_state))
}

/// `res` is what a Confirm mode message `msg` gives.
pub open spec fn confirm_outcome(msg: ConfirmMsg, confirm_state: ConfirmState, res: Command) -> bool {
    match msg {
        ConfirmMsg::Confirm => match confirm_state {
            ConfirmState::NewSession => res == Command::Continue(
                Model::Normal(SessionState { focus: None, maybe_file: None, changed: false }),
            ),
            ConfirmState::DeleteItem(state) => res matches Command::Continue(Model::Normal(s))
                && s.maybe_file == state.maybe_file && s.changed && focus_view(s.focus)
                == match focus_view(state.focus) {
                Some(v) => delete_v(v),
                None => None,
            },
            ConfirmState::DeleteFile(load_state) => res == Command::DeleteFile(load_state),
        },
        ConfirmMsg::Cancel => match confirm_state {
            ConfirmState::NewSession => res == Command::Continue(
                Model::Confirm(ConfirmState::NewSession),
            ),
            ConfirmState::DeleteItem(state) => res == Command::Continue(Model::Normal(state)),
            ConfirmState::DeleteFile(load_state) => res == Command::Continue(
                Model::Load(load_state),
            ),
        },
    }
}

/// Update the Model based on a Confirm mode message.
pub fn update_confirm(msg: ConfirmMsg, confirm_state: ConfirmState) -> (res: Command)
    ensures
        confirm_outcome(msg, confirm_state, res),
{
    let model = match msg {
        ConfirmMsg::Confirm => match confirm_state {
            ConfirmState::NewSession => Model::Normal(SessionState::new()),
            ConfirmState::DeleteItem(state) => Model::Normal(state.delete(true)),
            ConfirmState::DeleteFile(load_state) => return Command::DeleteFile(load_state),
        },
        ConfirmMsg::Cancel => match confirm_state {
            ConfirmState::NewSession => Model::Confirm(ConfirmState::NewSession),
            ConfirmState::DeleteItem(state) => Model::Normal(state),
            ConfirmState::DeleteFile(load_state) => Model::Load(load_state),
        },
    };
    Command::Continue(model)
}

/// Update the Model based on the `message` and return an IO Command.
pub fn update(message: Message) -> (res: Command)
    requires
        message matches Message::Load(LoadMsg::Open, s) ==> s.wf(),
        message matches Message::Load(LoadMsg::Increment, s) ==> s.index < usize::MAX,
    ensures
        match message {
            Message::Load(m, s) => load_outcome(m, s, res),
            Message::Normal(m, s) => normal_outcome(m, s, res),
            Message::Insert(m, s) => res matches Command::Continue(model) && insert_outcome(m, s, model),
            Message::Move(m, s) => res matches Command::Continue(model) && move_outcome(m, s, model),
            Message::Save(m, s) => save_outcome(m, s, res),
            Message::LabelInput(m, s) => res matches Command::Continue(model) && label_outcome(m, s, model),
            Message::FilenameInput(m, s) => filename_outcome(m, s, res),
            Message::Confirm(m, s) => confirm_outcome(m, s, res),
            Message::Continue(model) => res == Command::Continue(model),
        },
{
    match message {
        Message::Load(load_msg, load_state) => update_load(load_msg, load_state),
        Message::Normal(normal_msg, session_state) => update_normal(normal_msg, session_state),
        Message::Insert(insert_msg, session_state) => Command::Continue(
            update_insert(insert_msg, session_state),
        ),
        Message::Move(move_msg, session_state) => Command::Continue(update_move(move_msg, session_state)),
        Message::Save(save_msg, save_state) => update_save(save_msg, save_state),
        Message::LabelInput(label_msg, label_state) => Command::Continue(
            update_label_input(label_msg, label_state),
        ),
        Message::FilenameInput(filename_msg, filename_state) => update_filename_input(
            filename_msg,
            filename_state,
        ),
        Message::Confirm(confirm_msg, confirm_state) => update_confirm(confirm_msg, confirm_state),
        Message::Continue(model) => Command::Continue(model),
    }
}

/// The items of a session's forest (none without a forest).
pub open spec fn session_items(s: SessionState) -> vstd::multiset::Multiset<Seq<char>> {
    match focus_view(s.focus) {
        Some(v) => items(to_forest(v)),
        None => vstd::multiset::Multiset::empty(),
    }
}

/// Whatever is done in Move mode, the session keeps every item.
pub proof fn law_move_mode_keeps_items(msg: MoveMsg, state: SessionState, res: Model)
    requires
        move_outcome(msg, state, res),
    ensures
        match res {
            Model::Move(s) => session_items(s) == session_items(state),
            Model::Normal(s) => session_items(s) == session_items(state),
            _ => false,
        },
{
    if let Some(v) = focus_view(state.focus) {
        law_rearranging_keeps_items(v);
    }
}

/// Confirming the deletion of the focused item removes exactly that item
/// from the session (its children stay).
pub proof fn law_confirmed_delete_removes_item(state: SessionState, res: Command)
    requires
        confirm_outcome(ConfirmMsg::Confirm, ConfirmState::DeleteItem(state), res),
        state.focus is Some,
    ensures
        res matches Command::Continue(Model::Normal(s)) && session_items(s) == session_items(
            state,
        ).remove(state.focus->Some_0@.label),
{
    broadcast use vstd::multiset::group_multiset_axioms;

    let v = state.focus->Some_0@;
    law_delete_removes_focus_item(v);
    if delete_v(v) is None {
        assert(vstd::multiset::Multiset::singleton(v.label).remove(v.label)
            =~= vstd::multiset::Multiset::empty());
    }
}

} // verus!
