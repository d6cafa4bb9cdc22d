use vstd::prelude::*;

use crate::forest::laws::lemma_roots_concat;
use crate::io::Command;
use crate::lcrs::Lcrs;
use crate::message::{
    ConfirmMsg, FilenameMsg, InputEdit, InsertMsg, Key, LabelMsg, LoadMsg, MoveMsg, NormalMsg,
    SaveMsg, confirm_msg_of, filename_msg_of, insert_msg_of, label_msg_of, load_msg_of,
    move_msg_of, normal_msg_of, save_msg_of,
};
use crate::model::{ConfirmState, LoadState, Model, PostSaveAction, SaveState, SessionState, focus_view};
use crate::update::{
    confirm_outcome, insert_outcome, load_outcome, move_outcome, normal_outcome, save_outcome,
};
use crate::zipper::{FocusView, TreeView, join, roots};

verus! {

/// The focus after a Normal mode message that continues in Normal mode.
pub open spec fn normal_focus(res: Command) -> Option<FocusView> {
    match res {
        Command::Continue(Model::Normal(s)) => focus_view(s.focus),
        _ => None,
    }
}

/// The focus after a Move mode message that stays in Move mode.
pub open spec fn move_focus(res: Model) -> Option<FocusView> {
    match res {
        Model::Move(s) => focus_view(s.focus),
        _ => None,
    }
}

/// The focus of the new item after an Insert mode message.
pub open spec fn inserted_focus(res: Model) -> Option<FocusView> {
    match res {
        Model::LabelInput(l) => focus_view(l.session.focus),
        _ => None,
    }
}

/// The session after a Normal mode message that continues in Normal mode.
pub open spec fn normal_session(res: Command) -> Option<SessionState> {
    match res {
        Command::Continue(Model::Normal(s)) => Some(s),
        _ => None,
    }
}

/// Putting previous siblings (nearest first) in front of a forest puts
/// them there in their forest order, furthest first.
pub proof fn lemma_roots_join(left: Seq<TreeView>, right: Lcrs)
    ensures
        roots(join(left, right)) == left.reverse() + roots(right),
    decreases left.len(),
{
    if left.len() == 0 {
        assert(left.reverse() + roots(right) =~= roots(right));
    } else {
        let node = Lcrs::node(left[0].0, left[0].1, right);
        lemma_roots_join(left.drop_first(), node);
        assert(roots(node) == seq![left[0]] + roots(right));
        assert(left.reverse() =~= left.drop_first().reverse() + seq![left[0]]);
        assert(left.drop_first().reverse() + (seq![left[0]] + roots(right)) =~= left.reverse()
            + roots(right));
    }
}

/// The keys of Normal mode: `h`/Left to the parent, `l`/Right to the first
/// child, `k`/Up to the previous item, `j`/Down to the next item, and the
/// command keys of the command bar.
pub proof fn law_normal_keys()
    ensures
        normal_msg_of(Key::Char('h')) == Some(NormalMsg::Ascend),
        normal_msg_of(Key::Left) == Some(NormalMsg::Ascend),
        normal_msg_of(Key::Char('l')) == Some(NormalMsg::Descend),
        normal_msg_of(Key::Right) == Some(NormalMsg::Descend),
        normal_msg_of(Key::Char('k')) == Some(NormalMsg::Previous),
        normal_msg_of(Key::Up) == Some(NormalMsg::Previous),
        normal_msg_of(Key::Char('j')) == Some(NormalMsg::Next),
        normal_msg_of(Key::Down) == Some(NormalMsg::Next),
        normal_msg_of(Key::Char('r')) == Some(NormalMsg::Rename),
        normal_msg_of(Key::Char('i')) == Some(NormalMsg::Insert),
        normal_msg_of(Key::Char('m')) == Some(NormalMsg::Move),
        normal_msg_of(Key::Char('n')) == Some(NormalMsg::Nest),
        normal_msg_of(Key::Char('f')) == Some(NormalMsg::Flatten),
        normal_msg_of(Key::Char('d')) == Some(NormalMsg::Delete),
        normal_msg_of(Key::Char('q')) == Some(NormalMsg::Quit),
        normal_msg_of(Key::Backspace) == Some(NormalMsg::Load),
{
}

/// The keys of Move mode: `h`/Left promote, `l`/Right demote, `k`/Up move
/// back, `j`/Down move forward, Enter is done.
pub proof fn law_move_keys()
    ensures
        move_msg_of(Key::Char('h')) == Some(MoveMsg::Promote),
        move_msg_of(Key::Left) == Some(MoveMsg::Promote),
        move_msg_of(Key::Char('l')) == Some(MoveMsg::Demote),
        move_msg_of(Key::Right) == Some(MoveMsg::Demote),
        move_msg_of(Key::Char('k')) == Some(MoveMsg::Backward),
        move_msg_of(Key::Up) == Some(MoveMsg::Backward),
        move_msg_of(Key::Char('j')) == Some(MoveMsg::Forward),
        move_msg_of(Key::Down) == Some(MoveMsg::Forward),
        move_msg_of(Key::Enter) == Some(MoveMsg::Done),
{
}

/// The keys of Insert mode: `h` a parent, `l` a child, `k` before, `j`
/// after, Backspace back.
pub proof fn law_insert_keys()
    ensures
        insert_msg_of(Key::Char('h')) == Some(InsertMsg::Parent),
        insert_msg_of(Key::Char('l')) == Some(InsertMsg::Child),
        insert_msg_of(Key::Char('k')) == Some(InsertMsg::Before),
        insert_msg_of(Key::Char('j')) == Some(InsertMsg::After),
        insert_msg_of(Key::Backspace) == Some(InsertMsg::Back),
{
}

/// Navigation in Normal mode never changes the session's forest flags:
/// going up lands on the parent (one ancestor fewer), going down lands on the
/// first child (one ancestor more), going back lands on the previous sibling
/// and going forward on the next one; where there is no such node the focus
/// stays.
pub proof fn law_navigation(msg: NormalMsg, state: SessionState, res: Command)
    requires
        normal_outcome(msg, state, res),
        state.focus is Some,
        msg is Ascend || msg is Descend || msg is Previous || msg is Next,
    ensures
        normal_session(res) matches Some(s) && s.changed == state.changed && s.maybe_file
            == state.maybe_file,
        normal_focus(res) is Some,
        ({
            let f = state.focus->Some_0@;
            let g = normal_focus(res)->Some_0;
            match msg {
                NormalMsg::Ascend => if f.parents.len() > 0 {
                    &&& g.parents == f.parents.drop_first()
                    &&& g.label == f.parents[0].label
                    &&& g.prev == f.parents[0].prev
                    &&& g.next == f.parents[0].next
                } else {
                    g == f
                },
                NormalMsg::Descend => match f.child {
                    Lcrs::Node(l, c, s) => {
                        &&& g.parents.len() == f.parents.len() + 1
                        &&& g.parents.drop_first() == f.parents
                        &&& g.parents[0].label == f.label
                        &&& g.label == l
                        &&& g.prev.len() == 0
                        &&& g.child == *c
                        &&& g.next == *s
                    },
                    Lcrs::Empty => g == f,
                },
                NormalMsg::Previous => if f.prev.len() > 0 {
                    &&& g.parents == f.parents
                    &&& g.label == f.prev[0].0
                    &&& g.child == f.prev[0].1
                    &&& g.prev == f.prev.drop_first()
                    &&& g.next == Lcrs::node(f.label, f.child, f.next)
                } else {
                    g == f
                },
                _ => match f.next {
                    Lcrs::Node(l, c, s) => {
                        &&& g.parents == f.parents
                        &&& g.label == l
                        &&& g.child == *c
                        &&& g.prev.len() == f.prev.len() + 1
                        &&& g.prev[0] == (f.label, f.child)
                        &&& g.prev.drop_first() == f.prev
                        &&& g.next == *s
                    },
                    Lcrs::Empty => g == f,
                },
            }
        }),
{
    let f = state.focus->Some_0@;
    if msg is Next {
        if f.next is Node {
            let g = normal_focus(res)->Some_0;
            assert(g.prev.drop_first() =~= f.prev);
        }
    }
    if msg is Descend {
        if f.child is Node {
            let g = normal_focus(res)->Some_0;
            assert(g.parents.drop_first() =~= f.parents);
        }
    }
}

/// Pressing `j` (or Down) in Normal mode on an item with a next sibling
/// focuses that sibling, which comes after the item's whole subtree.
pub proof fn law_down_key_focuses_next(state: SessionState, res: Command)
    requires
        normal_msg_of(Key::Char('j')) matches Some(m) && normal_outcome(m, state, res),
        state.focus is Some,
        state.focus->Some_0@.next is Node,
    ensures
        normal_focus(res) matches Some(g) && g.label == state.focus->Some_0@.next->Node_0 && g.prev.len()
            == state.focus->Some_0@.prev.len() + 1 && g.parents == state.focus->Some_0@.parents,
{
    law_normal_keys();
    law_navigation(NormalMsg::Next, state, res);
}

/// Nesting in Normal mode leaves the focused item alone on its level: its
/// children are its former previous siblings, then its former children,
/// then its former next siblings, in order; the session is marked changed
/// when the forest changed. Flattening puts the focused item's children
/// right after it as its siblings.
pub proof fn law_nest_flatten(msg: NormalMsg, state: SessionState, res: Command)
    requires
        normal_outcome(msg, state, res),
        state.focus is Some,
        msg is Nest || msg is Flatten,
    ensures
        normal_session(res) matches Some(s) && s.maybe_file == state.maybe_file && s.changed == (
        state.changed || focus_view(s.focus) != focus_view(state.focus)),
        normal_focus(res) is Some,
        ({
            let f = state.focus->Some_0@;
            let g = normal_focus(res)->Some_0;
            &&& g.parents == f.parents
            &&& g.label == f.label
            &&& msg is Nest ==> {
                &&& g.prev.len() == 0
                &&& g.next == Lcrs::Empty
                &&& roots(g.child) == f.prev.reverse() + roots(f.child) + roots(f.next)
            }
            &&& msg is Flatten ==> {
                &&& g.prev == f.prev
                &&& g.child == Lcrs::Empty
                &&& roots(g.next) == roots(f.child) + roots(f.next)
            }
        }),
{
    let f = state.focus->Some_0@;
    lemma_roots_concat(f.child, f.next);
    lemma_roots_join(f.prev, f.child.concat(f.next));
    assert(f.prev.reverse() + (roots(f.child) + roots(f.next)) =~= f.prev.reverse() + roots(f.child)
        + roots(f.next));
}

/// Moving in Move mode: promoting makes the focused subtree its parent's
/// previous sibling (one ancestor fewer), demoting makes it the first child
/// of its next sibling (one ancestor more), moving back or forward swaps it
/// with its previous or next sibling. The focused label and children never
/// change, and where the move is impossible nothing changes.
pub proof fn law_move(msg: MoveMsg, state: SessionState, res: Model)
    requires
        move_outcome(msg, state, res),
        state.focus is Some,
        !(msg is Done),
    ensures
        move_focus(res) is Some,
        ({
            let f = state.focus->Some_0@;
            let g = move_focus(res)->Some_0;
            &&& g.label == f.label
            &&& g.child == f.child
            &&& match msg {
                MoveMsg::Promote => if f.parents.len() > 0 {
                    &&& g.parents == f.parents.drop_first()
                    &&& g.prev == f.parents[0].prev
                    &&& g.next matches Lcrs::Node(l, c, s) && l == f.parents[0].label && *s
                        == f.parents[0].next && roots(*c) == f.prev.reverse() + roots(f.next)
                } else {
                    g == f
                },
                MoveMsg::Demote => match f.next {
                    Lcrs::Node(l, c, s) => {
                        &&& g.parents.len() == f.parents.len() + 1
                        &&& g.parents.drop_first() == f.parents
                        &&& g.parents[0].label == l
                        &&& g.parents[0].prev == f.prev
                        &&& g.parents[0].next == *s
                        &&& g.prev.len() == 0
                        &&& g.next == *c
                    },
                    Lcrs::Empty => g == f,
                },
                MoveMsg::Backward => if f.prev.len() > 0 {
                    &&& g.parents == f.parents
                    &&& g.prev == f.prev.drop_first()
                    &&& g.next == Lcrs::node(f.prev[0].0, f.prev[0].1, f.next)
                } else {
                    g == f
                },
                _ => match f.next {
                    Lcrs::Node(l, c, s) => {
                        &&& g.parents == f.parents
                        &&& g.prev == seq![(l, *c)] + f.prev
                        &&& g.next == *s
                    },
                    Lcrs::Empty => g == f,
                },
            }
        }),
{
    let f = state.focus->Some_0@;
    lemma_roots_join(f.prev, f.next);
    if msg is Demote {
        if f.next is Node {
            let g = move_focus(res)->Some_0;
            assert(g.parents.drop_first() =~= f.parents);
        }
    }
}

/// Inserting in Insert mode: a parent takes the focused item's place with the
/// focused subtree as its only child; a child goes below the focused item
/// (one ancestor more) and takes over its children; an item before or after
/// becomes the focused item's previous or next sibling. The new item has an
/// empty label and is the focus.
pub proof fn law_insert(msg: InsertMsg, state: SessionState, res: Model)
    requires
        insert_outcome(msg, state, res),
        state.focus is Some,
        !(msg is Back),
    ensures
        inserted_focus(res) is Some,
        ({
            let f = state.focus->Some_0@;
            let g = inserted_focus(res)->Some_0;
            &&& g.label == Seq::<char>::empty()
            &&& match msg {
                InsertMsg::Parent => {
                    &&& g.parents == f.parents
                    &&& g.prev == f.prev
                    &&& g.next == f.next
                    &&& g.child == Lcrs::node(f.label, f.child, Lcrs::Empty)
                },
                InsertMsg::Child => {
                    &&& g.parents.len() == f.parents.len() + 1
                    &&& g.parents.drop_first() == f.parents
                    &&& g.parents[0].label == f.label
                    &&& g.parents[0].prev == f.prev
                    &&& g.parents[0].next == f.next
                    &&& g.prev.len() == 0
                    &&& g.next == Lcrs::Empty
                    &&& g.child == f.child
                },
                InsertMsg::Before => {
                    &&& g.parents == f.parents
                    &&& g.prev == f.prev
                    &&& g.child == Lcrs::Empty
                    &&& g.next == Lcrs::node(f.label, f.child, f.next)
                },
                _ => {
                    &&& g.parents == f.parents
                    &&& g.prev == seq![(f.label, f.child)] + f.prev
                    &&& g.child == Lcrs::Empty
                    &&& g.next == f.next
                },
            }
        }),
{
    let f = state.focus->Some_0@;
    if msg is Child {
        let g = inserted_focus(res)->Some_0;
        assert(g.parents.drop_first() =~= f.parents);
    }
}

/// The keys of the file list: `k`/Up and `j`/Down move the selection,
/// Enter opens, `n` starts a new session, `r` renames, `d` deletes, `q`
/// quits.
pub proof fn law_load_keys()
    ensures
        load_msg_of(Key::Char('k')) == Some(LoadMsg::Decrement),
        load_msg_of(Key::Up) == Some(LoadMsg::Decrement),
        load_msg_of(Key::Char('j')) == Some(LoadMsg::Increment),
        load_msg_of(Key::Down) == Some(LoadMsg::Increment),
        load_msg_of(Key::Enter) == Some(LoadMsg::Open),
        load_msg_of(Key::Char('n')) == Some(LoadMsg::New),
        load_msg_of(Key::Char('r')) == Some(LoadMsg::Rename),
        load_msg_of(Key::Char('d')) == Some(LoadMsg::Delete),
        load_msg_of(Key::Char('q')) == Some(LoadMsg::Quit),
{
}

/// The keys of the text inputs, the save query and the confirmations: a
/// character is typed, Backspace removes one, Enter submits or confirms,
/// Esc cancels, Space toggles the save choice.
pub proof fn law_input_keys(c: char)
    ensures
        label_msg_of(Key::Char(c)) == Some(LabelMsg::Edit(InputEdit::Append(c))),
        label_msg_of(Key::Backspace) == Some(LabelMsg::Edit(InputEdit::PopChar)),
        label_msg_of(Key::Enter) == Some(LabelMsg::Submit),
        label_msg_of(Key::Esc) == Some(LabelMsg::Cancel),
        filename_msg_of(Key::Char(c)) == Some(FilenameMsg::Edit(InputEdit::Append(c))),
        filename_msg_of(Key::Backspace) == Some(FilenameMsg::Edit(InputEdit::PopChar)),
        filename_msg_of(Key::Enter) == Some(FilenameMsg::Submit),
        filename_msg_of(Key::Esc) == Some(FilenameMsg::Cancel),
        save_msg_of(Key::Char(' ')) == Some(SaveMsg::Toggle),
        save_msg_of(Key::Enter) == Some(SaveMsg::Confirm),
        save_msg_of(Key::Esc) == Some(SaveMsg::Cancel),
        confirm_msg_of(Key::Enter) == Some(ConfirmMsg::Confirm),
        confirm_msg_of(Key::Esc) == Some(ConfirmMsg::Cancel),
{
}

/// Moving the selection of the file list: down selects the next file and up
/// the previous one, stopping at either end; the files stay as they are.
pub proof fn law_load_selection(msg: LoadMsg, load_state: LoadState, res: Command)
    requires
        load_outcome(msg, load_state, res),
        msg is Increment || msg is Decrement,
        load_state.wf(),
    ensures
        res matches Command::Continue(Model::Load(s)) && s.files == load_state.files && s.wf()
            && (msg is Increment ==> s.index == (if load_state.index + 1 < load_state.files@.len() {
            load_state.index + 1
        } else {
            load_state.index as int
        })) && (msg is Decrement ==> s.index == (if load_state.index > 0 {
            load_state.index - 1
        } else {
            0
        })),
{
    assert(load_state.files.len() == load_state.files@.len());
}

/// Confirming the save query: when saving, an open file is saved in place
/// and an untitled session asks for a file name; when discarding, the
/// session ends with the chosen action (back to the file list, or quit).
/// Cancelling returns to the session.
pub proof fn law_save_query(msg: SaveMsg, save_state: SaveState, res: Command)
    requires
        save_outcome(msg, save_state, res),
    ensures
        msg is Toggle ==> (res matches Command::Continue(Model::Save(s)) && s.save != save_state.save
            && s.post_save == save_state.post_save && s.session == save_state.session),
        msg is Cancel ==> res == Command::Continue(Model::Normal(save_state.session)),
        msg is Confirm && save_state.save && save_state.session.maybe_file is Some ==> res
            == Command::Save(save_state.session, save_state.post_save),
        msg is Confirm && save_state.save && save_state.session.maybe_file is None ==> res
            matches Command::Continue(Model::FilenameInput(_)),
        msg is Confirm && !save_state.save && save_state.post_save == PostSaveAction::Quit ==> res
            == Command::Quit,
        msg is Confirm && !save_state.save && save_state.post_save == PostSaveAction::Load ==> res
            == Command::Load,
{
}

/// Confirmations: confirming a file deletion asks for it, cancelling it
/// returns to the file list; cancelling an item deletion returns to the
/// unchanged session; confirming the start of a new session gives an empty
/// untitled one.
pub proof fn law_confirmations(msg: ConfirmMsg, confirm_state: ConfirmState, res: Command)
    requires
        confirm_outcome(msg, confirm_state, res),
    ensures
        confirm_state matches ConfirmState::DeleteFile(l) ==> (msg is Confirm ==> res
            == Command::DeleteFile(l)) && (msg is Cancel ==> res == Command::Continue(Model::Load(l))),
        confirm_state matches ConfirmState::DeleteItem(s) ==> (msg is Cancel ==> res
            == Command::Continue(Model::Normal(s))),
        confirm_state is NewSession && msg is Confirm ==> (res matches Command::Continue(
            Model::Normal(s),
        ) && s.focus is None && s.maybe_file is None && !s.changed),
{
}

} // verus!
