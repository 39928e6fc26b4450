//! Keyboard handling decisions: which key press does what in the base
//! viewport (fly keys), the text editor, and the two sub-editors. The window
//! layer turns its key events into [`Key`]s and performs the chosen action.
use vstd::prelude::*;

use crate::chars::str_eq;

verus! {

broadcast use vstd::string::group_string_axioms;

/// The named keys the editor reacts to.
#[derive(Clone, Copy, PartialEq, Eq, Debug, Structural)]
pub enum NamedKey {
    ArrowLeft,
    ArrowRight,
    ArrowUp,
    ArrowDown,
    Home,
    End,
    PageUp,
    PageDown,
    Backspace,
    Delete,
    Enter,
    Tab,
    Escape,
    Space,
    Control,
    /// Any other named key.
    Other,
}

/// A key press: a named key, or the text of a character key.
#[derive(Clone, PartialEq, Eq, Debug)]
pub enum Key {
    Named(NamedKey),
    Character(String),
    Unidentified,
}

/// The navigation and editing keys forwarded to the UI's text fields.
#[derive(Clone, Copy, PartialEq, Eq, Debug, Structural)]
pub enum UiKey {
    ArrowLeft,
    ArrowRight,
    ArrowUp,
    ArrowDown,
    Home,
    End,
    PageUp,
    PageDown,
    Backspace,
    Delete,
    Enter,
    Tab,
    Escape,
}

pub open spec fn ui_key_of(key: NamedKey) -> Option<UiKey> {
    match key {
        NamedKey::ArrowLeft => Some(UiKey::ArrowLeft),
        NamedKey::ArrowRight => Some(UiKey::ArrowRight),
        NamedKey::ArrowUp => Some(UiKey::ArrowUp),
        NamedKey::ArrowDown => Some(UiKey::ArrowDown),
        NamedKey::Home => Some(UiKey::Home),
        NamedKey::End => Some(UiKey::End),
        NamedKey::PageUp => Some(UiKey::PageUp),
        NamedKey::PageDown => Some(UiKey::PageDown),
        NamedKey::Backspace => Some(UiKey::Backspace),
        NamedKey::Delete => Some(UiKey::Delete),
        NamedKey::Enter => Some(UiKey::Enter),
        NamedKey::Tab => Some(UiKey::Tab),
        NamedKey::Escape => Some(UiKey::Escape),
        _ => None,
    }
}

/// The UI key a key press stands for, if any.
pub fn winit_key_to_agate(key: &Key) -> (k: Option<UiKey>)
    ensures
        k == match key {
            Key::Named(n) => ui_key_of(*n),
            _ => None,
        },
{
    match key {
        Key::Named(n) => match n {
            NamedKey::ArrowLeft => Some(UiKey::ArrowLeft),
            NamedKey::ArrowRight => Some(UiKey::ArrowRight),
            NamedKey::ArrowUp => Some(UiKey::ArrowUp),
            NamedKey::ArrowDown => Some(UiKey::ArrowDown),
            NamedKey::Home => Some(UiKey::Home),
            NamedKey::End => Some(UiKey::End),
            NamedKey::PageUp => Some(UiKey::PageUp),
            NamedKey::PageDown => Some(UiKey::PageDown),
            NamedKey::Backspace => Some(UiKey::Backspace),
            NamedKey::Delete => Some(UiKey::Delete),
            NamedKey::Enter => Some(UiKey::Enter),
            NamedKey::Tab => Some(UiKey::Tab),
            NamedKey::Escape => Some(UiKey::Escape),
            _ => None,
        },
        _ => None,
    }
}

/// Camera fly directions.
#[derive(Clone, Copy, PartialEq, Eq, Debug, Structural)]
pub enum FlyDir {
    Forward,
    Back,
    Left,
    Right,
    Up,
    Down,
}

/// Whether `s` is the lower- or upper-case letter given.
pub open spec fn is_letter(s: Seq<char>, lower: char, upper: char) -> bool {
    s == seq![lower] || s == seq![upper]
}

fn letter(s: &String, lower: &str, upper: &str) -> (b: bool)
    requires
        lower@.len() == 1,
        upper@.len() == 1,
    ensures
        b == (s@ == lower@ || s@ == upper@),
{
    str_eq(s.as_str(), lower) || str_eq(s.as_str(), upper)
}

pub open spec fn fly_dir_of(key: Key) -> Option<FlyDir> {
    match key {
        Key::Character(s) => if is_letter(s@, 'w', 'W') {
            Some(FlyDir::Forward)
        } else if is_letter(s@, 's', 'S') {
            Some(FlyDir::Back)
        } else if is_letter(s@, 'a', 'A') {
            Some(FlyDir::Left)
        } else if is_letter(s@, 'd', 'D') {
            Some(FlyDir::Right)
        } else if is_letter(s@, 'e', 'E') {
            Some(FlyDir::Up)
        } else if is_letter(s@, 'q', 'Q') {
            Some(FlyDir::Down)
        } else {
            None
        },
        Key::Named(NamedKey::Space) => Some(FlyDir::Up),
        Key::Named(NamedKey::Control) => Some(FlyDir::Down),
        _ => None,
    }
}

proof fn lemma_one_char_literals()
    ensures
        "w"@ == seq!['w'],
        "W"@ == seq!['W'],
        "s"@ == seq!['s'],
        "S"@ == seq!['S'],
        "a"@ == seq!['a'],
        "A"@ == seq!['A'],
        "d"@ == seq!['d'],
        "D"@ == seq!['D'],
        "e"@ == seq!['e'],
        "E"@ == seq!['E'],
        "q"@ == seq!['q'],
        "Q"@ == seq!['Q'],
        "c"@ == seq!['c'],
        "C"@ == seq!['C'],
        "x"@ == seq!['x'],
        "X"@ == seq!['X'],
        "v"@ == seq!['v'],
        "V"@ == seq!['V'],
        "z"@ == seq!['z'],
        "Z"@ == seq!['Z'],
        "k"@ == seq!['k'],
        "K"@ == seq!['K'],
{
    reveal_strlit("w");
    reveal_strlit("W");
    reveal_strlit("s");
    reveal_strlit("S");
    reveal_strlit("a");
    reveal_strlit("A");
    reveal_strlit("d");
    reveal_strlit("D");
    reveal_strlit("e");
    reveal_strlit("E");
    reveal_strlit("q");
    reveal_strlit("Q");
    reveal_strlit("c");
    reveal_strlit("C");
    reveal_strlit("x");
    reveal_strlit("X");
    reveal_strlit("v");
    reveal_strlit("V");
    reveal_strlit("z");
    reveal_strlit("Z");
    reveal_strlit("k");
    reveal_strlit("K");
    assert("w"@ =~= seq!['w']);
    assert("W"@ =~= seq!['W']);
    assert("s"@ =~= seq!['s']);
    assert("S"@ =~= seq!['S']);
    assert("a"@ =~= seq!['a']);
    assert("A"@ =~= seq!['A']);
    assert("d"@ =~= seq!['d']);
    assert("D"@ =~= seq!['D']);
    assert("e"@ =~= seq!['e']);
    assert("E"@ =~= seq!['E']);
    assert("q"@ =~= seq!['q']);
    assert("Q"@ =~= seq!['Q']);
    assert("c"@ =~= seq!['c']);
    assert("C"@ =~= seq!['C']);
    assert("x"@ =~= seq!['x']);
    assert("X"@ =~= seq!['X']);
    assert("v"@ =~= seq!['v']);
    assert("V"@ =~= seq!['V']);
    assert("z"@ =~= seq!['z']);
    assert("Z"@ =~= seq!['Z']);
    assert("k"@ =~= seq!['k']);
    assert("K"@ =~= seq!['K']);
}

/// The fly direction of a key: W/A/S/D move, E and Space go up, Q and
/// Control go down.
pub fn fly_dir(key: &Key) -> (d: Option<FlyDir>)
    ensures
        d == fly_dir_of(*key),
{
    proof {
        lemma_one_char_literals();
    }
    match key {
        Key::Character(s) => if letter(s, "w", "W") {
            Some(FlyDir::Forward)
        } else if letter(s, "s", "S") {
            Some(FlyDir::Back)
        } else if letter(s, "a", "A") {
            Some(FlyDir::Left)
        } else if letter(s, "d", "D") {
            Some(FlyDir::Right)
        } else if letter(s, "e", "E") {
            Some(FlyDir::Up)
        } else if letter(s, "q", "Q") {
            Some(FlyDir::Down)
        } else {
            None
        },
        Key::Named(NamedKey::Space) => Some(FlyDir::Up),
        Key::Named(NamedKey::Control) => Some(FlyDir::Down),
        _ => None,
    }
}

/// The camera flies only in the plain edit viewport: no sub-editor open and
/// no text being typed.
pub fn fly_active(edit_view: bool, grab_pose_open: bool, anim_sim_open: bool, typing: bool) -> (b:
    bool)
    ensures
        b == (edit_view && !grab_pose_open && !anim_sim_open && !typing),
{
    edit_view && !grab_pose_open && !anim_sim_open && !typing
}

/// Control characters (Unicode general category Cc).
pub open spec fn is_control(c: char) -> bool {
    (c as u32) <= 0x1F || (0x7F <= (c as u32) <= 0x9F)
}

/// The characters of `s` that are not control characters.
pub open spec fn printable(s: Seq<char>) -> Seq<char> {
    s.filter(|c: char| !is_control(c))
}

/// The characters a key event types: its text without control characters.
pub fn typed_chars(text: &str) -> (v: Vec<char>)
    ensures
        v@ == printable(text@),
{
    let mut v: Vec<char> = Vec::new();
    let n = text.unicode_len();
    let mut i: usize = 0;
    while i < n
        invariant
            i <= n,
            n == text@.len(),
            v@ == printable(text@.subrange(0, i as int)),
        decreases n - i,
    {
        let c = text.get_char(i);
        let u = c as u32;
        proof {
            let p = text@.subrange(0, i + 1);
            assert(p.drop_last() =~= text@.subrange(0, i as int));
            reveal_with_fuel(Seq::filter, 1);
            assert(p.last() == c);
        }
        if !(u <= 0x1F || (0x7F <= u && u <= 0x9F)) {
            v.push(c);
        }
        i = i + 1;
    }
    assert(text@.subrange(0, n as int) =~= text@);
    v
}

/// What a key press does in the code editor.
#[derive(Clone, Copy, PartialEq, Eq, Debug, Structural)]
pub enum EditorAction {
    MoveLeft(bool),
    MoveRight(bool),
    MoveUp(bool),
    MoveDown(bool),
    MoveHome(bool),
    MoveEnd(bool),
    /// Page move: `down`, `extend`.
    Page(bool, bool),
    Backspace,
    DeleteForward,
    Newline,
    /// Insert two spaces.
    InsertIndent,
    InsertSpace,
    Save,
    SelectAll,
    Copy,
    Cut,
    Paste,
    Undo,
    Redo,
    /// Type the event's text (its printable characters).
    TypeText,
    Nothing,
}

pub open spec fn editor_action_of(key: Key, cmd: bool, shift: bool) -> EditorAction {
    match key {
        Key::Named(NamedKey::ArrowLeft) => EditorAction::MoveLeft(shift),
        Key::Named(NamedKey::ArrowRight) => EditorAction::MoveRight(shift),
        Key::Named(NamedKey::ArrowUp) => EditorAction::MoveUp(shift),
        Key::Named(NamedKey::ArrowDown) => EditorAction::MoveDown(shift),
        Key::Named(NamedKey::Home) => EditorAction::MoveHome(shift),
        Key::Named(NamedKey::End) => EditorAction::MoveEnd(shift),
        Key::Named(NamedKey::PageUp) => EditorAction::Page(false, shift),
        Key::Named(NamedKey::PageDown) => EditorAction::Page(true, shift),
        Key::Named(NamedKey::Backspace) => EditorAction::Backspace,
        Key::Named(NamedKey::Delete) => EditorAction::DeleteForward,
        Key::Named(NamedKey::Enter) => EditorAction::Newline,
        Key::Named(NamedKey::Tab) => EditorAction::InsertIndent,
        Key::Named(NamedKey::Space) => EditorAction::InsertSpace,
        Key::Character(s) if cmd => if is_letter(s@, 's', 'S') {
            EditorAction::Save
        } else if is_letter(s@, 'a', 'A') {
            EditorAction::SelectAll
        } else if is_letter(s@, 'c', 'C') {
            EditorAction::Copy
        } else if is_letter(s@, 'x', 'X') {
            EditorAction::Cut
        } else if is_letter(s@, 'v', 'V') {
            EditorAction::Paste
        } else if is_letter(s@, 'z', 'Z') {
            if shift {
                EditorAction::Redo
            } else {
                EditorAction::Undo
            }
        } else {
            EditorAction::Nothing
        },
        _ => if cmd {
            EditorAction::Nothing
        } else {
            EditorAction::TypeText
        },
    }
}

proof fn lemma_single_chars_differ()
    ensures
        forall|a: char, b: char| a != b ==> #[trigger] seq![a] != #[trigger] seq![b],
{
    assert forall|a: char, b: char| a != b implies #[trigger] seq![a] != #[trigger] seq![b] by {
        if seq![a] == seq![b] {
            assert(seq![a][0] == seq![b][0]);
        }
    }
}

/// Law: each editing and movement key maps to the UI key of the same name;
/// Space, Control and other keys have none.
pub proof fn lemma_ui_keys_keep_their_names()
    ensures
        ui_key_of(NamedKey::ArrowLeft) == Some(UiKey::ArrowLeft),
        ui_key_of(NamedKey::ArrowRight) == Some(UiKey::ArrowRight),
        ui_key_of(NamedKey::ArrowUp) == Some(UiKey::ArrowUp),
        ui_key_of(NamedKey::ArrowDown) == Some(UiKey::ArrowDown),
        ui_key_of(NamedKey::Home) == Some(UiKey::Home),
        ui_key_of(NamedKey::End) == Some(UiKey::End),
        ui_key_of(NamedKey::PageUp) == Some(UiKey::PageUp),
        ui_key_of(NamedKey::PageDown) == Some(UiKey::PageDown),
        ui_key_of(NamedKey::Backspace) == Some(UiKey::Backspace),
        ui_key_of(NamedKey::Delete) == Some(UiKey::Delete),
        ui_key_of(NamedKey::Enter) == Some(UiKey::Enter),
        ui_key_of(NamedKey::Tab) == Some(UiKey::Tab),
        ui_key_of(NamedKey::Escape) == Some(UiKey::Escape),
        ui_key_of(NamedKey::Space) is None,
        ui_key_of(NamedKey::Control) is None,
        ui_key_of(NamedKey::Other) is None,
{
}

/// Law: W/S/A/D fly forward, back, left and right, E and Space fly up, Q
/// and Control fly down (letters in either case); other named keys do not
/// fly.
pub proof fn lemma_fly_keys(k: String)
    ensures
        (k@ == seq!['w'] || k@ == seq!['W']) ==> fly_dir_of(Key::Character(k)) == Some(
            FlyDir::Forward,
        ),
        (k@ == seq!['s'] || k@ == seq!['S']) ==> fly_dir_of(Key::Character(k)) == Some(FlyDir::Back),
        (k@ == seq!['a'] || k@ == seq!['A']) ==> fly_dir_of(Key::Character(k)) == Some(FlyDir::Left),
        (k@ == seq!['d'] || k@ == seq!['D']) ==> fly_dir_of(Key::Character(k)) == Some(
            FlyDir::Right,
        ),
        (k@ == seq!['e'] || k@ == seq!['E']) ==> fly_dir_of(Key::Character(k)) == Some(FlyDir::Up),
        (k@ == seq!['q'] || k@ == seq!['Q']) ==> fly_dir_of(Key::Character(k)) == Some(FlyDir::Down),
        k@.len() != 1 ==> fly_dir_of(Key::Character(k)) is None,
        fly_dir_of(Key::Named(NamedKey::Space)) == Some(FlyDir::Up),
        fly_dir_of(Key::Named(NamedKey::Control)) == Some(FlyDir::Down),
        fly_dir_of(Key::Named(NamedKey::ArrowUp)) is None,
        fly_dir_of(Key::Named(NamedKey::Escape)) is None,
        fly_dir_of(Key::Unidentified) is None,
{
    lemma_single_chars_differ();
}

/// Law: in the code editor the arrow, Home/End and page keys move (extending
/// the selection with Shift), Backspace, Delete and Enter edit, Tab indents
/// and Space types a space, whatever the command modifier.
pub proof fn lemma_editor_named_keys(cmd: bool, shift: bool)
    ensures
        editor_action_of(Key::Named(NamedKey::ArrowLeft), cmd, shift) == EditorAction::MoveLeft(
            shift,
        ),
        editor_action_of(Key::Named(NamedKey::ArrowRight), cmd, shift) == EditorAction::MoveRight(
            shift,
        ),
        editor_action_of(Key::Named(NamedKey::ArrowUp), cmd, shift) == EditorAction::MoveUp(shift),
        editor_action_of(Key::Named(NamedKey::ArrowDown), cmd, shift) == EditorAction::MoveDown(
            shift,
        ),
        editor_action_of(Key::Named(NamedKey::Home), cmd, shift) == EditorAction::MoveHome(shift),
        editor_action_of(Key::Named(NamedKey::End), cmd, shift) == EditorAction::MoveEnd(shift),
        editor_action_of(Key::Named(NamedKey::PageUp), cmd, shift) == EditorAction::Page(
            false,
            shift,
        ),
        editor_action_of(Key::Named(NamedKey::PageDown), cmd, shift) == EditorAction::Page(
            true,
            shift,
        ),
        editor_action_of(Key::Named(NamedKey::Backspace), cmd, shift) == EditorAction::Backspace,
        editor_action_of(Key::Named(NamedKey::Delete), cmd, shift) == EditorAction::DeleteForward,
        editor_action_of(Key::Named(NamedKey::Enter), cmd, shift) == EditorAction::Newline,
        editor_action_of(Key::Named(NamedKey::Tab), cmd, shift) == EditorAction::InsertIndent,
        editor_action_of(Key::Named(NamedKey::Space), cmd, shift) == EditorAction::InsertSpace,
        editor_action_of(Key::Named(NamedKey::Escape), true, shift) == EditorAction::Nothing,
        editor_action_of(Key::Named(NamedKey::Escape), false, shift) == EditorAction::TypeText,
{
}

/// Law: with the command modifier held, a one-letter key maps, in either
/// case, `s` to Save, `a` to Select All, `c` to Copy, `x` to Cut, `v` to
/// Paste and `z` to Undo (Redo with Shift); copying never edits the text.
pub proof fn lemma_command_shortcuts(k: String, shift: bool)
    ensures
        (k@ == seq!['s'] || k@ == seq!['S']) ==> editor_action_of(Key::Character(k), true, shift)
            == EditorAction::Save,
        (k@ == seq!['a'] || k@ == seq!['A']) ==> editor_action_of(Key::Character(k), true, shift)
            == EditorAction::SelectAll,
        (k@ == seq!['c'] || k@ == seq!['C']) ==> editor_action_of(Key::Character(k), true, shift)
            == EditorAction::Copy,
        (k@ == seq!['x'] || k@ == seq!['X']) ==> editor_action_of(Key::Character(k), true, shift)
            == EditorAction::Cut,
        (k@ == seq!['v'] || k@ == seq!['V']) ==> editor_action_of(Key::Character(k), true, shift)
            == EditorAction::Paste,
        (k@ == seq!['z'] || k@ == seq!['Z']) ==> editor_action_of(Key::Character(k), true, shift)
            == if shift {
            EditorAction::Redo
        } else {
            EditorAction::Undo
        },
{
    let letters = seq!['s', 'S', 'a', 'A', 'c', 'C', 'x', 'X', 'v', 'V', 'z', 'Z'];
    assert(forall|i: int, j: int|
        0 <= i < j < 12 ==> #[trigger] letters[i] != #[trigger] letters[j]);
    assert forall|a: char, b: char| a != b implies seq![a] != seq![b] by {
        if seq![a] == seq![b] {
            assert(seq![a][0] == seq![b][0]);
        }
    }
}

/// Law: without the command modifier a character key types its text; a
/// character key never moves the cursor or deletes.
pub proof fn lemma_plain_character_types(k: String, shift: bool)
    ensures
        editor_action_of(Key::Character(k), false, shift) == EditorAction::TypeText,
{
}

/// The code editor's reaction to a key press, given whether the command
/// (Ctrl/Cmd) and Shift modifiers are held.
pub fn editor_key_action(key: &Key, cmd: bool, shift: bool) -> (a: EditorAction)
    ensures
        a == editor_action_of(*key, cmd, shift),
{
    proof {
        lemma_one_char_literals();
    }
    match key {
        Key::Named(NamedKey::ArrowLeft) => EditorAction::MoveLeft(shift),
        Key::Named(NamedKey::ArrowRight) => EditorAction::MoveRight(shift),
        Key::Named(NamedKey::ArrowUp) => EditorAction::MoveUp(shift),
        Key::Named(NamedKey::ArrowDown) => EditorAction::MoveDown(shift),
        Key::Named(NamedKey::Home) => EditorAction::MoveHome(shift),
        Key::Named(NamedKey::End) => EditorAction::MoveEnd(shift),
        Key::Named(NamedKey::PageUp) => EditorAction::Page(false, shift),
        Key::Named(NamedKey::PageDown) => EditorAction::Page(true, shift),
        Key::Named(NamedKey::Backspace) => EditorAction::Backspace,
        Key::Named(NamedKey::Delete) => EditorAction::DeleteForward,
        Key::Named(NamedKey::Enter) => EditorAction::Newline,
        Key::Named(NamedKey::Tab) => EditorAction::InsertIndent,
        Key::Named(NamedKey::Space) => EditorAction::InsertSpace,
        Key::Character(s) if cmd => if letter(s, "s", "S") {
            EditorAction::Save
        } else if letter(s, "a", "A") {
            EditorAction::SelectAll
        } else if letter(s, "c", "C") {
            EditorAction::Copy
        } else if letter(s, "x", "X") {
            EditorAction::Cut
        } else if letter(s, "v", "V") {
            EditorAction::Paste
        } else if letter(s, "z", "Z") {
            if shift {
                EditorAction::Redo
            } else {
                EditorAction::Undo
            }
        } else {
            EditorAction::Nothing
        },
        _ => if cmd {
            EditorAction::Nothing
        } else {
            EditorAction::TypeText
        },
    }
}

/// What a key press does in the animation editor.
#[derive(Clone, Copy, PartialEq, Eq, Debug, Structural)]
pub enum AnimSimAction {
    Undo,
    Redo,
    CopyKey,
    PasteKey,
    /// Route the key to the focused text field (its text and UI key).
    TypeText,
    TogglePlay,
    DeleteKey,
    StepBack,
    StepForward,
    AddKey,
    Nothing,
}

pub open spec fn anim_sim_action_of(
    key: Key,
    cmd: bool,
    shift: bool,
    text_focused: bool,
    repeat: bool,
) -> AnimSimAction {
    match key {
        Key::Character(s) if cmd => if is_letter(s@, 'z', 'Z') {
            if shift {
                AnimSimAction::Redo
            } else {
                AnimSimAction::Undo
            }
        } else if is_letter(s@, 'c', 'C') && !text_focused {
            AnimSimAction::CopyKey
        } else if is_letter(s@, 'v', 'V') && !text_focused {
            AnimSimAction::PasteKey
        } else {
            AnimSimAction::Nothing
        },
        _ => if text_focused {
            AnimSimAction::TypeText
        } else if cmd {
            AnimSimAction::Nothing
        } else {
            match key {
                Key::Named(NamedKey::Space) => if repeat {
                    AnimSimAction::Nothing
                } else {
                    AnimSimAction::TogglePlay
                },
                Key::Named(NamedKey::Delete) | Key::Named(NamedKey::Backspace) => AnimSimAction::DeleteKey,
                Key::Named(NamedKey::ArrowLeft) => AnimSimAction::StepBack,
                Key::Named(NamedKey::ArrowRight) => AnimSimAction::StepForward,
                Key::Character(s) => if is_letter(s@, 'k', 'K') {
                    AnimSimAction::AddKey
                } else {
                    AnimSimAction::Nothing
                },
                _ => AnimSimAction::Nothing,
            }
        },
    }
}

/// The animation editor's reaction to a key press: command chords work even
/// while typing; single-key hotkeys only when no text field has focus.
pub fn anim_sim_key_action(key: &Key, cmd: bool, shift: bool, text_focused: bool, repeat: bool) -> (a:
    AnimSimAction)
    ensures
        a == anim_sim_action_of(*key, cmd, shift, text_focused, repeat),
{
    proof {
        lemma_one_char_literals();
    }
    match key {
        Key::Character(s) if cmd => {
            return if letter(s, "z", "Z") {
                if shift {
                    AnimSimAction::Redo
                } else {
                    AnimSimAction::Undo
                }
            } else if letter(s, "c", "C") && !text_focused {
                AnimSimAction::CopyKey
            } else if letter(s, "v", "V") && !text_focused {
                AnimSimAction::PasteKey
            } else {
                AnimSimAction::Nothing
            };
        },
        _ => {},
    }
    if text_focused {
        AnimSimAction::TypeText
    } else if cmd {
        AnimSimAction::Nothing
    } else {
        match key {
            Key::Named(NamedKey::Space) => if repeat {
                AnimSimAction::Nothing
            } else {
                AnimSimAction::TogglePlay
            },
            Key::Named(NamedKey::Delete) | Key::Named(NamedKey::Backspace) => AnimSimAction::DeleteKey,
            Key::Named(NamedKey::ArrowLeft) => AnimSimAction::StepBack,
            Key::Named(NamedKey::ArrowRight) => AnimSimAction::StepForward,
            Key::Character(s) => if letter(s, "k", "K") {
                AnimSimAction::AddKey
            } else {
                AnimSimAction::Nothing
            },
            _ => AnimSimAction::Nothing,
        }
    }
}

/// What a key press does in the grab-pose editor.
#[derive(Clone, Copy, PartialEq, Eq, Debug, Structural)]
pub enum GrabPoseAction {
    CancelExit,
    RequestExit,
    Undo,
    Redo,
    /// Route the key to the focused text field.
    TypeText,
    Nothing,
}

pub open spec fn grab_pose_action_of(
    key: Key,
    cmd: bool,
    shift: bool,
    text_focused: bool,
    confirming: bool,
) -> GrabPoseAction {
    match key {
        Key::Named(NamedKey::Escape) => if confirming {
            GrabPoseAction::CancelExit
        } else {
            GrabPoseAction::RequestExit
        },
        Key::Character(s) if cmd => if is_letter(s@, 'z', 'Z') {
            if shift {
                GrabPoseAction::Redo
            } else {
                GrabPoseAction::Undo
            }
        } else {
            GrabPoseAction::Nothing
        },
        _ => if text_focused {
            GrabPoseAction::TypeText
        } else {
            GrabPoseAction::Nothing
        },
    }
}

/// The grab-pose editor's reaction to a key press: Escape closes (or backs
/// out of the exit dialog), Cmd-Z / Cmd-Shift-Z undo and redo, and other keys
/// go to a focused text field.
pub fn grab_pose_key_action(
    key: &Key,
    cmd: bool,
    shift: bool,
    text_focused: bool,
    confirming: bool,
) -> (a: GrabPoseAction)
    ensures
        a == grab_pose_action_of(*key, cmd, shift, text_focused, confirming),
{
    proof {
        lemma_one_char_literals();
    }
    match key {
        Key::Named(NamedKey::Escape) => if confirming {
            GrabPoseAction::CancelExit
        } else {
            GrabPoseAction::RequestExit
        },
        Key::Character(s) if cmd => if letter(s, "z", "Z") {
            if shift {
                GrabPoseAction::Redo
            } else {
                GrabPoseAction::Undo
            }
        } else {
            GrabPoseAction::Nothing
        },
        _ => if text_focused {
            GrabPoseAction::TypeText
        } else {
            GrabPoseAction::Nothing
        },
    }
}

/// Law: in the animation editor Cmd-Z undoes (redoes with Shift); Cmd-C and
/// Cmd-V copy and paste the keyframe unless a text field has focus; with a
/// focused field other keys go to it; otherwise Space toggles playback
/// (not on auto-repeat), Delete and Backspace delete the keyframe, the left
/// and right arrows step the playhead and K adds a keyframe.
pub proof fn lemma_anim_sim_keys(k: String, shift: bool, focused: bool, repeat: bool)
    ensures
        (k@ == seq!['z'] || k@ == seq!['Z']) ==> anim_sim_action_of(
            Key::Character(k),
            true,
            shift,
            focused,
            repeat,
        ) == if shift {
            AnimSimAction::Redo
        } else {
            AnimSimAction::Undo
        },
        (k@ == seq!['c'] || k@ == seq!['C']) ==> anim_sim_action_of(
            Key::Character(k),
            true,
            shift,
            focused,
            repeat,
        ) == if focused {
            AnimSimAction::Nothing
        } else {
            AnimSimAction::CopyKey
        },
        (k@ == seq!['v'] || k@ == seq!['V']) ==> anim_sim_action_of(
            Key::Character(k),
            true,
            shift,
            focused,
            repeat,
        ) == if focused {
            AnimSimAction::Nothing
        } else {
            AnimSimAction::PasteKey
        },
        anim_sim_action_of(Key::Character(k), false, shift, true, repeat) == AnimSimAction::TypeText,
        anim_sim_action_of(Key::Named(NamedKey::Delete), false, shift, true, repeat)
            == AnimSimAction::TypeText,
        (k@ == seq!['k'] || k@ == seq!['K']) ==> anim_sim_action_of(
            Key::Character(k),
            false,
            shift,
            false,
            repeat,
        ) == AnimSimAction::AddKey,
        anim_sim_action_of(Key::Named(NamedKey::Space), false, shift, false, repeat) == if repeat {
            AnimSimAction::Nothing
        } else {
            AnimSimAction::TogglePlay
        },
        anim_sim_action_of(Key::Named(NamedKey::Delete), false, shift, false, repeat)
            == AnimSimAction::DeleteKey,
        anim_sim_action_of(Key::Named(NamedKey::Backspace), false, shift, false, repeat)
            == AnimSimAction::DeleteKey,
        anim_sim_action_of(Key::Named(NamedKey::ArrowLeft), false, shift, false, repeat)
            == AnimSimAction::StepBack,
        anim_sim_action_of(Key::Named(NamedKey::ArrowRight), false, shift, false, repeat)
            == AnimSimAction::StepForward,
        anim_sim_action_of(Key::Named(NamedKey::Space), true, shift, false, repeat)
            == AnimSimAction::Nothing,
{
    lemma_single_chars_differ();
}

/// Law: in the grip-pose editor Escape asks to exit (or backs out of the
/// exit dialog), Cmd-Z undoes (redoes with Shift), and other keys go to a
/// focused text field or do nothing.
pub proof fn lemma_grab_pose_keys(k: String, cmd: bool, shift: bool, focused: bool, confirming: bool)
    ensures
        grab_pose_action_of(Key::Named(NamedKey::Escape), cmd, shift, focused, confirming) == if confirming {
            GrabPoseAction::CancelExit
        } else {
            GrabPoseAction::RequestExit
        },
        (k@ == seq!['z'] || k@ == seq!['Z']) ==> grab_pose_action_of(
            Key::Character(k),
            true,
            shift,
            focused,
            confirming,
        ) == if shift {
            GrabPoseAction::Redo
        } else {
            GrabPoseAction::Undo
        },
        !(k@ == seq!['z'] || k@ == seq!['Z']) ==> grab_pose_action_of(
            Key::Character(k),
            true,
            shift,
            focused,
            confirming,
        ) == GrabPoseAction::Nothing,
        grab_pose_action_of(Key::Character(k), false, shift, focused, confirming) == if focused {
            GrabPoseAction::TypeText
        } else {
            GrabPoseAction::Nothing
        },
{
}

} // verus!
