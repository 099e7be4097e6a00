//! Keys as the user interface reads them, and the application's own bindings.

use vstd::prelude::*;

verus! {

/// A key.
#[derive(Clone, Copy, Debug, PartialEq, Eq, Structural)]
pub enum KeyCode {
    Backspace,
    Enter,
    Left,
    Right,
    Up,
    Down,
    Home,
    End,
    PageUp,
    PageDown,
    Tab,
    BackTab,
    Delete,
    Insert,
    F(u8),
    Char(char),
    Null,
    Esc,
    /// any other key
    Other,
}

/// Whether a key went down, repeats or went up.
#[derive(Clone, Copy, Debug, PartialEq, Eq, Structural)]
pub enum KeyEventKind {
    Press,
    Repeat,
    Release,
}

/// A key event.
#[derive(Clone, Copy, Debug, PartialEq, Eq, Structural)]
pub struct KeyEvent {
    pub code: KeyCode,
    pub kind: KeyEventKind,
}

/// The keys that the application itself handles.
#[derive(Clone, Copy, Debug, PartialEq, Eq, Structural)]
pub enum Keys {
    LogCat,
    AppHelp,
    AppInfo,
    AppQuit,
    Reserved,
}

/// The application key bound to `code`.
pub open spec fn spec_key_of(code: KeyCode) -> Keys {
    match code {
        KeyCode::Char('L') => Keys::LogCat,
        KeyCode::Char('?') => Keys::AppHelp,
        KeyCode::Char('I') => Keys::AppInfo,
        KeyCode::Char('q') => Keys::AppQuit,
        _ => Keys::Reserved,
    }
}

/// The help lines of the application keys.
pub open spec fn all_doc_lines() -> Seq<Seq<char>> {
    seq![
        "L: show the recent log"@,
        "?: show this help"@,
        "I: show information on the clash core"@,
        "q: quit"@,
    ]
}

/// Whether `items` are the help lines of the application keys.
pub open spec fn is_all_doc(items: Seq<String>) -> bool {
    &&& items.len() == all_doc_lines().len()
    &&& forall|i: int| 0 <= i < items.len() ==> #[trigger] items[i]@ == all_doc_lines()[i]
}

impl Keys {
    /// The application key bound to `code`.
    pub fn from_code(code: KeyCode) -> (r: Keys)
        ensures
            r == spec_key_of(code),
    {
        match code {
            KeyCode::Char('L') => Keys::LogCat,
            KeyCode::Char('?') => Keys::AppHelp,
            KeyCode::Char('I') => Keys::AppInfo,
            KeyCode::Char('q') => Keys::AppQuit,
            _ => Keys::Reserved,
        }
    }

    /// The help lines of the application keys.
    pub fn all_doc() -> (r: Vec<String>)
        ensures
            is_all_doc(r@),
    {
        let mut v: Vec<String> = Vec::new();
        v.push("L: show the recent log".to_owned());
        v.push("?: show this help".to_owned());
        v.push("I: show information on the clash core".to_owned());
        v.push("q: quit".to_owned());
        v
    }
}

} // verus!
