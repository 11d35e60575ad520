//! The modal input state machine: maps (mode, key press) pairs to abstract
//! editing actions. It owns no document state beyond the one-shot pending
//! flag of the only two-keystroke binding (`g` then `g`), and emits actions
//! only: all actual mutation happens in the document model.
use vstd::prelude::*;

verus! {

/// The editor's modes; exactly one is active at a time.
#[derive(Debug, Clone, Copy, PartialEq, Eq)]
pub enum Mode {
    Normal,
    EditValue,
    RenameKey,
    AddKey,
    AddValue,
    ConfirmDelete,
    ConfirmQuit,
    ConfirmOpenAnother,
    ConfirmRawDeleteLine,
    SearchInput,
    /// Editing a line in the raw fallback view.
    RawEditLine,
}

/// An abstract editing action, the only output of the state machine.
#[derive(Debug, Clone, Copy, PartialEq, Eq)]
pub enum InputAction {
    Quit,
    Save,
    MoveUp,
    MoveDown,
    JumpTop,
    JumpBottom,
    PageUp,
    PageDown,
    JumpLeft,
    Collapse,
    Expand,
    ToggleExpand,
    EditValue,
    RenameKey,
    AddChild,
    AddMapToSequence,
    DeleteNode,
    DeleteLine,
    CopyPath,
    ConfirmYes,
    ConfirmNo,
    OpenAnother,
    StartSearch,
    SearchNext,
    SearchPrev,
    Cancel,
    InputChar(char),
    InputBackspace,
    InputDelete,
    InputLeft,
    InputRight,
    InputHome,
    InputEnd,
    InputCommit,
}

/// What a key press carries, as the logic reads it.
#[derive(Debug, Clone, Copy, PartialEq, Eq)]
pub enum Key {
    Char(char),
    Enter,
    Esc,
    Backspace,
    Delete,
    Left,
    Right,
    Up,
    Down,
    Home,
    End,
    Other,
}

/// One key press with its modifiers.
#[derive(Debug, Clone, Copy, PartialEq, Eq)]
pub struct KeyPress {
    pub key: Key,
    pub shift: bool,
    pub control: bool,
}

impl KeyPress {
    /// No modifier held.
    pub open spec fn plain(&self) -> bool {
        !self.shift && !self.control
    }

    /// Shift alone.
    pub open spec fn shifted(&self) -> bool {
        self.shift && !self.control
    }

    /// Control alone.
    pub open spec fn ctrl(&self) -> bool {
        self.control && !self.shift
    }
}

pub struct InputContext<'a> {
    pub mode: &'a Mode,
    pub key: KeyPress,
}

pub struct VimInputHandler {
    pending_g: bool,
}

/// The action of one key in a text-entry mode.
pub open spec fn spec_input_mode_action(key: KeyPress) -> Option<InputAction> {
    match key.key {
        Key::Esc => Some(InputAction::Cancel),
        Key::Enter => Some(InputAction::InputCommit),
        Key::Left => Some(InputAction::InputLeft),
        Key::Right => Some(InputAction::InputRight),
        Key::Home => Some(InputAction::InputHome),
        Key::End => Some(InputAction::InputEnd),
        Key::Backspace => Some(InputAction::InputBackspace),
        Key::Delete => Some(InputAction::InputDelete),
        Key::Char(ch) => if !key.control {
            Some(InputAction::InputChar(ch))
        } else {
            None
        },
        _ => None,
    }
}

/// The action of one key in a confirmation mode: only yes, no and escape are
/// recognized, and escape answers no.
pub open spec fn spec_confirm_action(key: KeyPress) -> Option<InputAction> {
    match key.key {
        Key::Char(c) => if c == 'y' && key.plain() {
            Some(InputAction::ConfirmYes)
        } else if c == 'n' && key.plain() {
            Some(InputAction::ConfirmNo)
        } else {
            None
        },
        Key::Esc => Some(InputAction::ConfirmNo),
        _ => None,
    }
}

/// The action of one key in normal mode, together with the new state of the
/// one-shot pending flag: a lone `g` arms it, a second `g` while armed jumps
/// to the top, and any other key clears it without a side effect on the flag's
/// account.
pub open spec fn spec_normal_action(key: KeyPress, pending: bool) -> (
    Option<InputAction>,
    bool,
) {
    match key.key {
        Key::Char(c) => if c == 'q' && key.plain() {
            (Some(InputAction::Quit), false)
        } else if c == 's' && key.ctrl() {
            (Some(InputAction::Save), false)
        } else if c == 'o' && key.ctrl() {
            (Some(InputAction::OpenAnother), false)
        } else if c == 'j' && key.plain() {
            (Some(InputAction::MoveDown), false)
        } else if c == 'k' && key.plain() {
            (Some(InputAction::MoveUp), false)
        } else if c == 'g' && key.plain() {
            if pending {
                (Some(InputAction::JumpTop), false)
            } else {
                (None, true)
            }
        } else if c == 'G' && !key.control {
            (Some(InputAction::JumpBottom), false)
        } else if c == 'h' && key.plain() {
            (Some(InputAction::Collapse), false)
        } else if c == 'l' && key.plain() {
            (Some(InputAction::Expand), false)
        } else if c == 'e' && key.plain() {
            (Some(InputAction::EditValue), false)
        } else if c == 'r' && key.plain() {
            (Some(InputAction::RenameKey), false)
        } else if c == 'a' && key.plain() {
            (Some(InputAction::AddChild), false)
        } else if c == 'A' && key.shifted() {
            (Some(InputAction::AddMapToSequence), false)
        } else if c == 'd' && key.plain() {
            (Some(InputAction::DeleteNode), false)
        } else if c == 'd' && key.ctrl() {
            (Some(InputAction::PageDown), false)
        } else if c == 'u' && key.ctrl() {
            (Some(InputAction::PageUp), false)
        } else if c == 'y' && key.plain() {
            (Some(InputAction::CopyPath), false)
        } else if c == 'n' && key.plain() {
            (Some(InputAction::SearchNext), false)
        } else if c == 'N' && !key.control {
            (Some(InputAction::SearchPrev), false)
        } else if c == '/' && key.plain() {
            (Some(InputAction::StartSearch), false)
        } else if c == '0' && key.plain() {
            (Some(InputAction::JumpLeft), false)
        } else {
            (None, false)
        },
        Key::Down => (Some(InputAction::MoveDown), false),
        Key::Up => (Some(InputAction::MoveUp), false),
        Key::Left => (Some(InputAction::Collapse), false),
        Key::Right => (Some(InputAction::Expand), false),
        Key::Enter => (Some(InputAction::ToggleExpand), false),
        Key::Delete => if key.shifted() {
            (Some(InputAction::DeleteLine), false)
        } else {
            (None, false)
        },
        _ => (None, false),
    }
}

/// The whole transition table: what one key press yields in one mode, and
/// the new pending flag. Only normal mode can leave the flag armed.
pub open spec fn spec_handle_key(mode: Mode, key: KeyPress, pending: bool) -> (
    Option<InputAction>,
    bool,
) {
    match mode {
        Mode::EditValue | Mode::RenameKey | Mode::AddKey | Mode::AddValue | Mode::SearchInput
            | Mode::RawEditLine => (spec_input_mode_action(key), false),
        Mode::ConfirmDelete | Mode::ConfirmQuit | Mode::ConfirmOpenAnother
            | Mode::ConfirmRawDeleteLine => (spec_confirm_action(key), false),
        Mode::Normal => spec_normal_action(key, pending),
    }
}

impl VimInputHandler {
    pub closed spec fn pending(&self) -> bool {
        self.pending_g
    }

    pub fn new() -> (r: Self)
        ensures
            !r.pending(),
    {
        VimInputHandler { pending_g: false }
    }

    /// Turns one key press into an abstract action, following the transition
    /// table exactly.
    pub fn handle_key(&mut self, ctx: InputContext<'_>) -> (r: Option<InputAction>)
        ensures
            (r, final (self).pending()) == spec_handle_key(*ctx.mode, ctx.key, old(
                self,
            ).pending()),
    {
        let key = ctx.key;
        match ctx.mode {
            Mode::EditValue | Mode::RenameKey | Mode::AddKey | Mode::AddValue | Mode::SearchInput
                | Mode::RawEditLine => {
                self.pending_g = false;
                self.handle_input_mode(key)
            },
            Mode::ConfirmDelete | Mode::ConfirmQuit | Mode::ConfirmOpenAnother
                | Mode::ConfirmRawDeleteLine => {
                self.pending_g = false;
                self.handle_confirm(key)
            },
            Mode::Normal => {
                match key.key {
                    Key::Char(c) => {
                        if c == 'q' && !key.shift && !key.control {
                            self.pending_g = false;
                            Some(InputAction::Quit)
                        } else if c == 's' && key.control && !key.shift {
                            self.pending_g = false;
                            Some(InputAction::Save)
                        } else if c == 'o' && key.control && !key.shift {
                            self.pending_g = false;
                            Some(InputAction::OpenAnother)
                        } else if c == 'j' && !key.shift && !key.control {
                            self.pending_g = false;
                            Some(InputAction::MoveDown)
                        } else if c == 'k' && !key.shift && !key.control {
                            self.pending_g = false;
                            Some(InputAction::MoveUp)
                        } else if c == 'g' && !key.shift && !key.control {
                            if self.pending_g {
                                self.pending_g = false;
                                Some(InputAction::JumpTop)
                            } else {
                                self.pending_g = true;
                                None
                            }
                        } else if c == 'G' && !key.control {
                            self.pending_g = false;
                            Some(InputAction::JumpBottom)
                        } else if c == 'h' && !key.shift && !key.control {
                            self.pending_g = false;
                            Some(InputAction::Collapse)
                        } else if c == 'l' && !key.shift && !key.control {
                            self.pending_g = false;
                            Some(InputAction::Expand)
                        } else if c == 'e' && !key.shift && !key.control {
                            self.pending_g = false;
                            Some(InputAction::EditValue)
                        } else if c == 'r' && !key.shift && !key.control {
                            self.pending_g = false;
                            Some(InputAction::RenameKey)
                        } else if c == 'a' && !key.shift && !key.control {
                            self.pending_g = false;
                            Some(InputAction::AddChild)
                        } else if c == 'A' && key.shift && !key.control {
                            self.pending_g = false;
                            Some(InputAction::AddMapToSequence)
                        } else if c == 'd' && !key.shift && !key.control {
                            self.pending_g = false;
                            Some(InputAction::DeleteNode)
                        } else if c == 'd' && key.control && !key.shift {
                            self.pending_g = false;
                            Some(InputAction::PageDown)
                        } else if c == 'u' && key.control && !key.shift {
                            self.pending_g = false;
                            Some(InputAction::PageUp)
                        } else if c == 'y' && !key.shift && !key.control {
                            self.pending_g = false;
                            Some(InputAction::CopyPath)
                        } else if c == 'n' && !key.shift && !key.control {
                            self.pending_g = false;
                            Some(InputAction::SearchNext)
                        } else if c == 'N' && !key.control {
                            self.pending_g = false;
                            Some(InputAction::SearchPrev)
                        } else if c == '/' && !key.shift && !key.control {
                            self.pending_g = false;
                            Some(InputAction::StartSearch)
                        } else if c == '0' && !key.shift && !key.control {
                            self.pending_g = false;
                            Some(InputAction::JumpLeft)
                        } else {
                            self.pending_g = false;
                            None
                        }
                    },
                    Key::Down => {
                        self.pending_g = false;
                        Some(InputAction::MoveDown)
                    },
                    Key::Up => {
                        self.pending_g = false;
                        Some(InputAction::MoveUp)
                    },
                    Key::Left => {
                        self.pending_g = false;
                        Some(InputAction::Collapse)
                    },
                    Key::Right => {
                        self.pending_g = false;
                        Some(InputAction::Expand)
                    },
                    Key::Enter => {
                        self.pending_g = false;
                        Some(InputAction::ToggleExpand)
                    },
                    Key::Delete => {
                        self.pending_g = false;
                        if key.shift && !key.control {
                            Some(InputAction::DeleteLine)
                        } else {
                            None
                        }
                    },
                    _ => {
                        self.pending_g = false;
                        None
                    },
                }
            },
        }
    }

    fn handle_input_mode(&mut self, key: KeyPress) -> (r: Option<InputAction>)
        requires
            !old(self).pending(),
        ensures
            r == spec_input_mode_action(key),
            !final (self).pending(),
    {
        match key.key {
            Key::Esc => Some(InputAction::Cancel),
            Key::Enter => Some(InputAction::InputCommit),
            Key::Left => Some(InputAction::InputLeft),
            Key::Right => Some(InputAction::InputRight),
            Key::Home => Some(InputAction::InputHome),
            Key::End => Some(InputAction::InputEnd),
            Key::Backspace => Some(InputAction::InputBackspace),
            Key::Delete => Some(InputAction::InputDelete),
            Key::Char(ch) => {
                if !key.control {
                    Some(InputAction::InputChar(ch))
                } else {
                    None
                }
            },
            _ => None,
        }
    }

    fn handle_confirm(&mut self, key: KeyPress) -> (r: Option<InputAction>)
        requires
            !old(self).pending(),
        ensures
            r == spec_confirm_action(key),
            !final (self).pending(),
    {
        match key.key {
            Key::Char(c) => {
                if c == 'y' && !key.shift && !key.control {
                    Some(InputAction::ConfirmYes)
                } else if c == 'n' && !key.shift && !key.control {
                    Some(InputAction::ConfirmNo)
                } else {
                    None
                }
            },
            Key::Esc => Some(InputAction::ConfirmNo),
            _ => None,
        }
    }
}

} // verus!
