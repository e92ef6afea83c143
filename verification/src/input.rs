//! Input events and the actions they resolve to: one pure dispatch table
//! per interaction mode.

use vstd::prelude::*;

verus! {

use crate::text::trimmed;

/// The interaction modes. Exactly one is active at a time.
#[derive(Clone, Copy, Debug, PartialEq, Eq, Structural)]
pub enum Mode {
    Normal,
    Insert,
    Visual,
    Command,
}

/// A key, already decoded from the terminal's input stream.
#[derive(Clone, Copy, Debug, PartialEq, Eq, Structural)]
pub enum Key {
    Char(char),
    Up,
    Down,
    Left,
    Right,
    Enter,
    Backspace,
    Esc,
}

/// One key press: the key and whether the control modifier was held.
#[derive(Clone, Copy, Debug, PartialEq, Eq, Structural)]
pub struct KeyPress {
    pub key: Key,
    pub ctrl: bool,
}

/// An input event: a key press, a terminal resize carrying the new width
/// and height, or anything else the terminal reports and the editor ignores.
#[derive(Clone, Copy, Debug, PartialEq, Eq, Structural)]
pub enum Event {
    Key(KeyPress),
    Resize(u16, u16),
    Other,
}

/// A discrete editing intent, resolved from an input event by the
/// mode-aware classifier and applied by the action interpreter.
#[derive(Clone, Copy, Debug, PartialEq, Eq, Structural)]
pub enum Action {
    Quit,
    SaveAndQuit,
    MoveUp,
    MoveDown,
    MoveRight,
    MoveLeft,
    MoveWordForward,
    MoveWordBackward,
    MoveWordEnd,
    MoveToTop,
    MoveToBottom,
    OpenLineAbove,
    OpenLineBelow,
    InsertCharAtCursorPos(char),
    DeleteChar,
    DeleteCharAtCursorPos,
    DeleteCurrentLine,
    NewLine,
    EnterMode(Mode),
    SetWaitingCmd(char),
}

/// What the event loop does after a cycle: keep going, stop, or save the
/// buffer and then stop.
#[derive(Clone, Copy, Debug, PartialEq, Eq, Structural)]
pub enum Outcome {
    Continue,
    Quit,
    SaveAndQuit,
}

/// The exit signal an action carries; every other action keeps the session
/// going.
pub open spec fn outcome_of(a: Action) -> Outcome {
    match a {
        Action::Quit => Outcome::Quit,
        Action::SaveAndQuit => Outcome::SaveAndQuit,
        _ => Outcome::Continue,
    }
}

/// Normal mode's key table. Modifiers are not consulted there. The column
/// advance of `a` is a side effect of the classifier, not part of the table.
pub open spec fn normal_action(ev: Event) -> Option<Action> {
    match ev {
        Event::Key(k) => match k.key {
            Key::Char('q') => Some(Action::Quit),
            Key::Up | Key::Char('k') => Some(Action::MoveUp),
            Key::Down | Key::Char('j') => Some(Action::MoveDown),
            Key::Right | Key::Char('l') => Some(Action::MoveRight),
            Key::Left | Key::Char('h') => Some(Action::MoveLeft),
            Key::Char('w') => Some(Action::MoveWordForward),
            Key::Char('b') => Some(Action::MoveWordBackward),
            Key::Char('$') => Some(Action::MoveWordEnd),
            Key::Char('G') => Some(Action::MoveToBottom),
            Key::Char('O') => Some(Action::OpenLineAbove),
            Key::Char('o') => Some(Action::OpenLineBelow),
            Key::Char('x') => Some(Action::DeleteCharAtCursorPos),
            Key::Char('i') => Some(Action::EnterMode(Mode::Insert)),
            Key::Char('a') => Some(Action::EnterMode(Mode::Insert)),
            Key::Char('v') => Some(Action::EnterMode(Mode::Visual)),
            Key::Char(':') => Some(Action::EnterMode(Mode::Command)),
            Key::Char('d') => Some(Action::SetWaitingCmd('d')),
            Key::Char('g') => Some(Action::SetWaitingCmd('g')),
            _ => None,
        },
        _ => None,
    }
}

/// Resolution of a pending two-key command: the leader's expected follow-up
/// produces its action; anything else discards the pending leader silently.
pub open spec fn waiting_action(leader: char, ev: Event) -> Option<Action> {
    match ev {
        Event::Key(k) => match k.key {
            Key::Char(c) => {
                if leader == 'd' && c == 'd' {
                    Some(Action::DeleteCurrentLine)
                } else if leader == 'g' && c == 'g' {
                    Some(Action::MoveToTop)
                } else {
                    None
                }
            },
            _ => None,
        },
        _ => None,
    }
}

/// Insert mode's table: Escape or control-c leaves, Enter splits the line,
/// Backspace deletes before the cursor, and any other character is inserted.
pub open spec fn insert_action(ev: Event) -> Option<Action> {
    match ev {
        Event::Key(k) => match k.key {
            Key::Esc => Some(Action::EnterMode(Mode::Normal)),
            Key::Char(c) => {
                if c == 'c' && k.ctrl {
                    Some(Action::EnterMode(Mode::Normal))
                } else {
                    Some(Action::InsertCharAtCursorPos(c))
                }
            },
            Key::Enter => Some(Action::NewLine),
            Key::Backspace => Some(Action::DeleteChar),
            _ => None,
        },
        _ => None,
    }
}

/// Visual mode's table: movement as in normal mode, Escape or control-c
/// leaves.
pub open spec fn visual_action(ev: Event) -> Option<Action> {
    match ev {
        Event::Key(k) => match k.key {
            Key::Esc => Some(Action::EnterMode(Mode::Normal)),
            Key::Char(c) => {
                if c == 'c' && k.ctrl {
                    Some(Action::EnterMode(Mode::Normal))
                } else if c == 'h' {
                    Some(Action::MoveLeft)
                } else if c == 'j' {
                    Some(Action::MoveDown)
                } else if c == 'k' {
                    Some(Action::MoveUp)
                } else if c == 'l' {
                    Some(Action::MoveRight)
                } else {
                    None
                }
            },
            _ => None,
        },
        _ => None,
    }
}

/// The command resolver's table: `q` quits, `wq` saves and then quits, and
/// any other command silently returns to normal mode.
pub open spec fn resolve_command(cmd: Seq<char>) -> Action {
    if cmd == seq!['q'] {
        Action::Quit
    } else if cmd == seq!['w', 'q'] {
        Action::SaveAndQuit
    } else {
        Action::EnterMode(Mode::Normal)
    }
}

/// The action command mode produces for an event, given the command-line
/// text accumulated so far. Enter submits the trimmed text to the resolver;
/// Backspace on an empty command line returns to normal mode.
pub open spec fn command_action(cmd: Seq<char>, ev: Event) -> Option<Action> {
    match ev {
        Event::Key(k) => match k.key {
            Key::Esc => Some(Action::EnterMode(Mode::Normal)),
            Key::Char(c) => {
                if c == 'c' && k.ctrl {
                    Some(Action::EnterMode(Mode::Normal))
                } else {
                    None
                }
            },
            Key::Backspace => {
                if cmd.len() == 0 {
                    Some(Action::EnterMode(Mode::Normal))
                } else {
                    None
                }
            },
            Key::Enter => Some(resolve_command(trimmed(cmd))),
            _ => None,
        },
        _ => None,
    }
}

/// The command-line text after command mode handles an event: characters
/// append, Backspace removes the last one, Escape, control-c and Enter
/// clear it.
pub open spec fn command_buffer_after(cmd: Seq<char>, ev: Event) -> Seq<char> {
    match ev {
        Event::Key(k) => match k.key {
            Key::Esc => Seq::empty(),
            Key::Char(c) => {
                if c == 'c' && k.ctrl {
                    Seq::empty()
                } else {
                    cmd.push(c)
                }
            },
            Key::Backspace => {
                if cmd.len() == 0 {
                    cmd
                } else {
                    cmd.drop_last()
                }
            },
            Key::Enter => Seq::empty(),
            _ => cmd,
        },
        _ => cmd,
    }
}

} // verus!
