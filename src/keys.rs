//! Key events and the binding table that maps them to picker actions.
use vstd::prelude::*;

verus! {

/// The key that was pressed, without its modifiers.
#[derive(Clone, Copy, Debug, PartialEq, Eq, Structural)]
pub enum KeyCode {
    /// A character key.
    Char(char),
    /// Tab.
    Tab,
    /// Arrow down.
    Down,
    /// Arrow up.
    Up,
    /// Escape.
    Esc,
    /// Enter.
    Enter,
    /// Backspace.
    Backspace,
    /// Any other key.
    Other,
}

/// A key press: the key and the modifiers held with it.
#[derive(Clone, Copy, Debug, PartialEq, Eq, Structural)]
pub struct Key {
    /// The key itself.
    pub code: KeyCode,
    /// Control is held.
    pub ctrl: bool,
    /// Alt is held.
    pub alt: bool,
    /// Shift is held.
    pub shift: bool,
    /// Super is held.
    pub super_key: bool,
}

/// An event delivered by the host.
#[derive(Clone, Copy, Debug, PartialEq, Eq, Structural)]
pub enum Event {
    /// A key press.
    Key(Key),
    /// Anything else, which the picker ignores.
    Other,
}

/// The two input modes.
#[derive(Clone, Copy, Debug, PartialEq, Eq, Structural)]
pub enum InputMode {
    /// Keys navigate and pick.
    Normal,
    /// Keys edit the query.
    Search,
}

/// What a key press asks of the picker.
#[derive(Clone, Copy, Debug, PartialEq, Eq, Structural)]
pub enum KeyAction {
    /// Move the selection down, cyclically.
    Down,
    /// Move the selection up, cyclically.
    Up,
    /// Switch to normal mode.
    EnterNormal,
    /// Switch to search mode.
    EnterSearch,
    /// Close the picker without selecting.
    Cancel,
    /// Select the current result.
    Accept,
    /// Select the result at this position, if there is one.
    Pick(usize),
    /// Select the last result.
    PickLast,
    /// Append a character to the query.
    Type(char),
    /// Empty the query.
    ClearQuery,
    /// Remove the last character of the query.
    DeleteChar,
    /// Nothing.
    Ignore,
}

impl Key {
    /// Whether no modifier is held.
    pub open spec fn is_plain(&self) -> bool {
        !self.ctrl && !self.alt && !self.shift && !self.super_key
    }

    /// Whether no modifier is held.
    pub fn has_no_modifiers(&self) -> (r: bool)
        ensures
            r == self.is_plain(),
    {
        !self.ctrl && !self.alt && !self.shift && !self.super_key
    }
}

/// The bindings that hold in both modes, tried first.
pub open spec fn global_action(key: Key) -> KeyAction {
    match key.code {
        KeyCode::Tab => if key.is_plain() {
            KeyAction::Down
        } else if key.shift {
            KeyAction::Up
        } else {
            KeyAction::Ignore
        },
        KeyCode::Down => if key.is_plain() {
            KeyAction::Down
        } else {
            KeyAction::Ignore
        },
        KeyCode::Up => if key.is_plain() {
            KeyAction::Up
        } else {
            KeyAction::Ignore
        },
        KeyCode::Esc => if key.is_plain() {
            KeyAction::EnterNormal
        } else {
            KeyAction::Ignore
        },
        KeyCode::Char(c) => if c == 'c' && key.ctrl {
            KeyAction::Cancel
        } else {
            KeyAction::Ignore
        },
        KeyCode::Enter => if key.is_plain() {
            KeyAction::Accept
        } else {
            KeyAction::Ignore
        },
        _ => KeyAction::Ignore,
    }
}

/// The bindings of normal mode.
pub open spec fn normal_action(key: Key) -> KeyAction {
    match key.code {
        KeyCode::Char(c) => if !key.is_plain() {
            KeyAction::Ignore
        } else if c == 'j' {
            KeyAction::Down
        } else if c == 'k' {
            KeyAction::Up
        } else if '1' <= c <= '8' {
            KeyAction::Pick((c as u32 - '1' as u32) as usize)
        } else if c == '9' {
            KeyAction::PickLast
        } else if c == '/' {
            KeyAction::EnterSearch
        } else {
            KeyAction::Ignore
        },
        _ => KeyAction::Ignore,
    }
}

/// The bindings of search mode.
pub open spec fn search_action(key: Key) -> KeyAction {
    match key.code {
        KeyCode::Char(c) => if key.is_plain() {
            KeyAction::Type(c)
        } else if c == 'u' && key.ctrl {
            KeyAction::ClearQuery
        } else {
            KeyAction::Ignore
        },
        KeyCode::Backspace => if key.is_plain() {
            KeyAction::DeleteChar
        } else {
            KeyAction::Ignore
        },
        _ => KeyAction::Ignore,
    }
}

/// What a key press asks for in a mode: a global binding if one fires, else
/// the binding of the mode.
pub open spec fn key_action(mode: InputMode, key: Key) -> KeyAction {
    if global_action(key) != KeyAction::Ignore {
        global_action(key)
    } else {
        match mode {
            InputMode::Normal => normal_action(key),
            InputMode::Search => search_action(key),
        }
    }
}

/// The bindings that hold in both modes.
fn handle_global_key(key: &Key) -> (r: KeyAction)
    ensures
        r == global_action(*key),
{
    let plain = key.has_no_modifiers();
    match key.code {
        KeyCode::Tab if plain => KeyAction::Down,
        KeyCode::Down if plain => KeyAction::Down,
        KeyCode::Tab if key.shift => KeyAction::Up,
        KeyCode::Up if plain => KeyAction::Up,
        KeyCode::Esc if plain => KeyAction::EnterNormal,
        KeyCode::Char('c') if key.ctrl => KeyAction::Cancel,
        KeyCode::Enter if plain => KeyAction::Accept,
        _ => KeyAction::Ignore,
    }
}

/// The bindings of normal mode.
fn handle_normal_key(key: &Key) -> (r: KeyAction)
    ensures
        r == normal_action(*key),
{
    if !key.has_no_modifiers() {
        return KeyAction::Ignore;
    }
    match key.code {
        KeyCode::Char('j') => KeyAction::Down,
        KeyCode::Char('k') => KeyAction::Up,
        KeyCode::Char(c) if '1' <= c && c <= '8' => KeyAction::Pick((c as u32 - '1' as u32) as usize),
        KeyCode::Char('9') => KeyAction::PickLast,
        KeyCode::Char('/') => KeyAction::EnterSearch,
        _ => KeyAction::Ignore,
    }
}

/// The bindings of search mode.
fn handle_search_key(key: &Key) -> (r: KeyAction)
    ensures
        r == search_action(*key),
{
    let plain = key.has_no_modifiers();
    match key.code {
        KeyCode::Char(c) if plain => KeyAction::Type(c),
        KeyCode::Char('u') if key.ctrl => KeyAction::ClearQuery,
        KeyCode::Backspace if plain => KeyAction::DeleteChar,
        _ => KeyAction::Ignore,
    }
}

/// What a key press asks for in a mode: global bindings first, then those of
/// the mode.
pub fn key_action_of(mode: InputMode, key: &Key) -> (r: KeyAction)
    ensures
        r == key_action(mode, *key),
{
    let global = handle_global_key(key);
    if global != KeyAction::Ignore {
        return global;
    }
    match mode {
        InputMode::Normal => handle_normal_key(key),
        InputMode::Search => handle_search_key(key),
    }
}

} // verus!
