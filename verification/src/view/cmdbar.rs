use vstd::prelude::*;

use crate::model::{ConfirmState, FilenameState, FilenameStatus, LabelState, Model, SessionState};

verus! {

/// A key and the command it triggers, as listed in the command bar.
#[derive(Clone, Copy, PartialEq, Eq, Debug)]
pub enum KeyCommand {
    LoadNavigate,
    Navigate,
    Open,
    New,
    Rename,
    Submit,
    Confirm,
    Done,
    Quit,
    Move,
    Nest,
    Flatten,
    Down,
    Up,
    Promote,
    Demote,
    Edit,
    Insert,
    Parent,
    Child,
    Before,
    After,
    Delete,
    Back,
    Toggle,
    Cancel,
}

impl KeyCommand {
    /// The keys that trigger the command.
    pub open spec fn key_text(self) -> Seq<char> {
        match self {
            KeyCommand::LoadNavigate => "JK │ ↓↑"@,
            KeyCommand::Navigate => "HJKL │ ←↓↑→"@,
            KeyCommand::Open => "Enter"@,
            KeyCommand::New => "N"@,
            KeyCommand::Rename => "R"@,
            KeyCommand::Submit => "Enter"@,
            KeyCommand::Confirm => "Enter"@,
            KeyCommand::Done => "Enter"@,
            KeyCommand::Quit => "Q"@,
            KeyCommand::Move => "M"@,
            KeyCommand::Nest => "N"@,
            KeyCommand::Flatten => "F"@,
            KeyCommand::Down => "J │ ↓"@,
            KeyCommand::Up => "K │ ↑"@,
            KeyCommand::Promote => "H │ ←"@,
            KeyCommand::Demote => "L │ →"@,
            KeyCommand::Edit => "E"@,
            KeyCommand::Insert => "I"@,
            KeyCommand::Parent => "H"@,
            KeyCommand::Child => "L"@,
            KeyCommand::Before => "K"@,
            KeyCommand::After => "J"@,
            KeyCommand::Delete => "D"@,
            KeyCommand::Back => "Bksp"@,
            KeyCommand::Toggle => "Space"@,
            KeyCommand::Cancel => "Esc"@,
        }
    }

    /// The name of the command.
    pub open spec fn name_text(self) -> Seq<char> {
        match self {
            KeyCommand::LoadNavigate => "Navigate"@,
            KeyCommand::Navigate => "Navigate"@,
            KeyCommand::Open => "Open"@,
            KeyCommand::New => "New"@,
            KeyCommand::Rename => "Rename"@,
            KeyCommand::Submit => "Submit"@,
            KeyCommand::Confirm => "Confirm"@,
            KeyCommand::Done => "Done"@,
            KeyCommand::Quit => "Quit"@,
            KeyCommand::Move => "Move"@,
            KeyCommand::Nest => "Nest"@,
            KeyCommand::Flatten => "Flatten"@,
            KeyCommand::Down => "Down"@,
            KeyCommand::Up => "Up"@,
            KeyCommand::Promote => "Promote"@,
            KeyCommand::Demote => "Demote"@,
            KeyCommand::Edit => "Edit"@,
            KeyCommand::Insert => "Insert"@,
            KeyCommand::Parent => "Parent"@,
            KeyCommand::Child => "Child"@,
            KeyCommand::Before => "Before"@,
            KeyCommand::After => "After"@,
            KeyCommand::Delete => "Delete"@,
            KeyCommand::Back => "Back"@,
            KeyCommand::Toggle => "Toggle"@,
            KeyCommand::Cancel => "Cancel"@,
        }
    }

    /// The keys that trigger the command.
    pub fn key(self) -> (res: &'static str)
        ensures
            res@ == self.key_text(),
    {
        match self {
            KeyCommand::LoadNavigate => "JK │ ↓↑",
            KeyCommand::Navigate => "HJKL │ ←↓↑→",
            KeyCommand::Open => "Enter",
            KeyCommand::New => "N",
            KeyCommand::Rename => "R",
            KeyCommand::Submit => "Enter",
            KeyCommand::Confirm => "Enter",
            KeyCommand::Done => "Enter",
            KeyCommand::Quit => "Q",
            KeyCommand::Move => "M",
            KeyCommand::Nest => "N",
            KeyCommand::Flatten => "F",
            KeyCommand::Down => "J │ ↓",
            KeyCommand::Up => "K │ ↑",
            KeyCommand::Promote => "H │ ←",
            KeyCommand::Demote => "L │ →",
            KeyCommand::Edit => "E",
            KeyCommand::Insert => "I",
            KeyCommand::Parent => "H",
            KeyCommand::Child => "L",
            KeyCommand::Before => "K",
            KeyCommand::After => "J",
            KeyCommand::Delete => "D",
            KeyCommand::Back => "Bksp",
            KeyCommand::Toggle => "Space",
            KeyCommand::Cancel => "Esc",
        }
    }

    /// The name of the command.
    pub fn name(self) -> (res: &'static str)
        ensures
            res@ == self.name_text(),
    {
        match self {
            KeyCommand::LoadNavigate => "Navigate",
            KeyCommand::Navigate => "Navigate",
            KeyCommand::Open => "Open",
            KeyCommand::New => "New",
            KeyCommand::Rename => "Rename",
            KeyCommand::Submit => "Submit",
            KeyCommand::Confirm => "Confirm",
            KeyCommand::Done => "Done",
            KeyCommand::Quit => "Quit",
            KeyCommand::Move => "Move",
            KeyCommand::Nest => "Nest",
            KeyCommand::Flatten => "Flatten",
            KeyCommand::Down => "Down",
            KeyCommand::Up => "Up",
            KeyCommand::Promote => "Promote",
            KeyCommand::Demote => "Demote",
            KeyCommand::Edit => "Edit",
            KeyCommand::Insert => "Insert",
            KeyCommand::Parent => "Parent",
            KeyCommand::Child => "Child",
            KeyCommand::Before => "Before",
            KeyCommand::After => "After",
            KeyCommand::Delete => "Delete",
            KeyCommand::Back => "Back",
            KeyCommand::Toggle => "Toggle",
            KeyCommand::Cancel => "Cancel",
        }
    }
}

/// Return the confirm mode key-command pairs.
pub fn confirm_mode_commands(confirm_state: &ConfirmState) -> (res: Vec<KeyCommand>)
    ensures
        res@ == (match confirm_state {
            ConfirmState::NewSession => seq![KeyCommand::Confirm],
            _ => seq![KeyCommand::Confirm, KeyCommand::Cancel],
        }),
{
    match confirm_state {
        ConfirmState::NewSession => vec![KeyCommand::Confirm],
        _ => vec![KeyCommand::Confirm, KeyCommand::Cancel],
    }
}

/// The load mode commands that are always offered.
pub open spec fn load_commands() -> Seq<KeyCommand> {
    seq![
        KeyCommand::Open,
        KeyCommand::New,
        KeyCommand::Rename,
        KeyCommand::Delete,
        KeyCommand::Quit,
    ]
}

/// Return the load mode key-command pairs.
pub fn load_mode_commands(file_count: usize) -> (res: Vec<KeyCommand>)
    ensures
        file_count > 1 ==> res@ == seq![KeyCommand::LoadNavigate] + load_commands(),
        file_count <= 1 ==> res@ == load_commands(),
{
    let mut pairs = Vec::new();
    if file_count > 1 {
        pairs.push(KeyCommand::LoadNavigate);
    }
    pairs.push(KeyCommand::Open);
    pairs.push(KeyCommand::New);
    pairs.push(KeyCommand::Rename);
    pairs.push(KeyCommand::Delete);
    pairs.push(KeyCommand::Quit);
    pairs
}

/// The normal mode commands offered while a node is focused.
pub open spec fn focus_commands() -> Seq<KeyCommand> {
    seq![
        KeyCommand::Navigate,
        KeyCommand::Edit,
        KeyCommand::Move,
        KeyCommand::Nest,
        KeyCommand::Flatten,
        KeyCommand::Insert,
        KeyCommand::Delete,
    ]
}

/// Return the normal mode key-command pairs.
pub fn normal_mode_commands(session: &SessionState) -> (res: Vec<KeyCommand>)
    ensures
        session.focus is None ==> res@ == seq![KeyCommand::Insert, KeyCommand::Quit],
        session.focus is Some ==> res@ == focus_commands().push(KeyCommand::Quit),
{
    let mut pairs = Vec::new();
    if session.focus.is_none() {
        pairs.push(KeyCommand::Insert);
    } else {
        pairs.push(KeyCommand::Navigate);
        pairs.push(KeyCommand::Edit);
        pairs.push(KeyCommand::Move);
        pairs.push(KeyCommand::Nest);
        pairs.push(KeyCommand::Flatten);
        pairs.push(KeyCommand::Insert);
        pairs.push(KeyCommand::Delete);
    }
    pairs.push(KeyCommand::Quit);
    pairs
}

/// Return the label input mode key-command pairs.
pub fn label_input_commands(label_state: &LabelState) -> (res: Vec<KeyCommand>)
    ensures
        label_state.input@.len() == 0 ==> res@ == seq![KeyCommand::Cancel],
        label_state.input@.len() > 0 ==> res@ == seq![KeyCommand::Submit, KeyCommand::Cancel],
{
    if label_state.input.as_str().is_empty() {
        vec![KeyCommand::Cancel]
    } else {
        vec![KeyCommand::Submit, KeyCommand::Cancel]
    }
}

/// Return the filename input mode key-command pairs.
pub fn filename_input_commands(filename_state: &FilenameState) -> (res: Vec<KeyCommand>)
    ensures
        filename_state.status == FilenameStatus::Valid ==> res@ == seq![
            KeyCommand::Submit,
            KeyCommand::Cancel,
        ],
        filename_state.status != FilenameStatus::Valid ==> res@ == seq![KeyCommand::Cancel],
{
    if filename_state.is_valid() {
        vec![KeyCommand::Submit, KeyCommand::Cancel]
    } else {
        vec![KeyCommand::Cancel]
    }
}

/// The key-command pairs of the command bar in each mode.
pub open spec fn model_commands(model: Model) -> Seq<KeyCommand> {
    match model {
        Model::Load(load_state) => if load_state.files@.len() > 1 {
            seq![KeyCommand::LoadNavigate] + load_commands()
        } else {
            load_commands()
        },
        Model::Normal(state) => if state.focus is None {
            seq![KeyCommand::Insert, KeyCommand::Quit]
        } else {
            focus_commands().push(KeyCommand::Quit)
        },
        Model::Insert(_) => seq![
            KeyCommand::Parent,
            KeyCommand::Child,
            KeyCommand::Before,
            KeyCommand::After,
            KeyCommand::Back,
        ],
        Model::Move(_) => seq![
            KeyCommand::Down,
            KeyCommand::Up,
            KeyCommand::Promote,
            KeyCommand::Demote,
            KeyCommand::Done,
        ],
        Model::Save(_) => seq![KeyCommand::Toggle, KeyCommand::Confirm, KeyCommand::Cancel],
        Model::LabelInput(label_state) => if label_state.input@.len() == 0 {
            seq![KeyCommand::Cancel]
        } else {
            seq![KeyCommand::Submit, KeyCommand::Cancel]
        },
        Model::FilenameInput(filename_state) => if filename_state.status
            == FilenameStatus::Valid {
            seq![KeyCommand::Submit, KeyCommand::Cancel]
        } else {
            seq![KeyCommand::Cancel]
        },
        Model::Confirm(ConfirmState::NewSession) => seq![KeyCommand::Confirm],
        Model::Confirm(_) => seq![KeyCommand::Confirm, KeyCommand::Cancel],
    }
}

/// Return the key-command pairs of the command bar for the current `model`.
pub fn command_pairs(model: &Model) -> (res: Vec<KeyCommand>)
    ensures
        res@ == model_commands(*model),
{
    match model {
        Model::Load(load_state) => load_mode_commands(load_state.files.len()),
        Model::Normal(state) => normal_mode_commands(state),
        Model::Insert(_) => vec![
            KeyCommand::Parent,
            KeyCommand::Child,
            KeyCommand::Before,
            KeyCommand::After,
            KeyCommand::Back,
        ],
        Model::Move(_) => vec![
            KeyCommand::Down,
            KeyCommand::Up,
            KeyCommand::Promote,
            KeyCommand::Demote,
            KeyCommand::Done,
        ],
        Model::Save(_) => vec![KeyCommand::Toggle, KeyCommand::Confirm, KeyCommand::Cancel],
        Model::LabelInput(label_state) => label_input_commands(label_state),
        Model::FilenameInput(filename_state) => filename_input_commands(filename_state),
        Model::Confirm(confirm_state) => confirm_mode_commands(confirm_state),
    }
}

/// The texts of the spans of one key-command pair: the key between spaces,
/// the name after a space, and the gap before the next pair.
pub open spec fn pair_texts(c: KeyCommand) -> Seq<Seq<char>> {
    seq![" "@ + c.key_text() + " "@, " "@ + c.name_text(), "    "@]
}

/// The texts of the spans of the pairs `cs`, each followed by a gap.
pub open spec fn pairs_texts(cs: Seq<KeyCommand>) -> Seq<Seq<char>>
    decreases cs.len(),
{
    if cs.len() == 0 {
        Seq::empty()
    } else {
        pair_texts(cs[0]) + pairs_texts(cs.drop_first())
    }
}

/// The texts of the command bar's spans: the pairs with the gaps between
/// them (none after the last).
pub open spec fn bar_texts(cs: Seq<KeyCommand>) -> Seq<Seq<char>> {
    let all = pairs_texts(cs);
    if all.len() == 0 {
        all
    } else {
        all.drop_last()
    }
}

proof fn lemma_pairs_texts_push(cs: Seq<KeyCommand>, c: KeyCommand)
    ensures
        pairs_texts(cs.push(c)) == pairs_texts(cs) + pair_texts(c),
    decreases cs.len(),
{
    if cs.len() == 0 {
        assert(cs.push(c).drop_first() =~= Seq::<KeyCommand>::empty());
        assert(pairs_texts(cs.push(c).drop_first()) == Seq::<Seq<char>>::empty());
        assert(cs.push(c)[0] == c);
        assert(pairs_texts(cs) == Seq::<Seq<char>>::empty());
        assert(pairs_texts(cs.push(c)) =~= pair_texts(c));
    } else {
        assert(cs.push(c).drop_first() =~= cs.drop_first().push(c));
        lemma_pairs_texts_push(cs.drop_first(), c);
        assert(pairs_texts(cs.push(c)) =~= pairs_texts(cs) + pair_texts(c));
    }
}

/// Return the texts of the command bar's spans for the `model`, in order.
pub fn command_bar_spans(model: &Model) -> (res: Vec<String>)
    ensures
        res@.len() == bar_texts(model_commands(*model)).len(),
        forall|k: int|
            0 <= k < res@.len() ==> (#[trigger] res@[k])@ == bar_texts(model_commands(*model))[k],
{
    let commands = command_pairs(model);
    let ghost cs = commands@;
    let mut spans: Vec<String> = Vec::new();
    let mut i: usize = 0;
    assert(cs.take(0) =~= Seq::<KeyCommand>::empty());
    while i < commands.len()
        invariant
            cs == commands@,
            i <= cs.len(),
            spans@.len() == pairs_texts(cs.take(i as int)).len(),
            forall|k: int|
                0 <= k < spans@.len() ==> (#[trigger] spans@[k])@ == pairs_texts(cs.take(i as int))[k],
        decreases cs.len() - i,
    {
        let c = commands[i];
        proof {
            assert(cs.take(i + 1) =~= cs.take(i as int).push(c));
            lemma_pairs_texts_push(cs.take(i as int), c);
        }
        let mut key = " ".to_owned();
        key.append(c.key());
        key.append(" ");
        let mut name = " ".to_owned();
        name.append(c.name());
        spans.push(key);
        spans.push(name);
        spans.push("    ".to_owned());
        i = i + 1;
    }
    proof {
        assert(cs.take(i as int) =~= cs);
    }
    let _gap = spans.pop();
    spans
}

} // verus!
