pub mod frontend;
pub mod key_bind;
pub mod widget;

use vstd::prelude::*;

verus! {

/// What became of a key event.
#[derive(Clone, Copy, Debug, PartialEq, Eq, Structural)]
pub enum EventState {
    NotConsumed,
    WorkDone,
    Cancel,
}

/// A message shown in a popup.
#[derive(Clone, Debug)]
pub enum PopMsg {
    Prompt(Vec<String>),
}

/// A request to the back end.
#[derive(Clone, Copy, Debug, PartialEq, Eq, Structural)]
pub enum Call {
    /// wake the back end up
    Tick,
    /// stop the back end
    Stop,
    /// the recent log lines: the first line and the number of lines
    Logs(usize, usize),
    /// information on the clash core
    Infos,
}

/// An answer of the back end.
#[derive(Clone, Debug)]
pub enum CallBack {
    Error(String),
    Logs(Vec<String>),
    Infos(Vec<String>),
    Preview(Vec<String>),
    Edit,
    State(String),
    ProfileInit(Vec<String>),
    ProfileCTL(Vec<String>),
    ServiceCTL(Vec<String>),
}

} // verus!
