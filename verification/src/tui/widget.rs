//! The popups of the user interface, as the content they show.

use super::PopMsg;
use vstd::prelude::*;

verus! {

/// A popup that lists lines under a title.
#[derive(Clone, Debug)]
pub struct ListPopup {
    pub title: String,
    pub items: Vec<String>,
}

impl ListPopup {
    /// An empty list popup.
    pub fn new() -> (r: ListPopup)
        ensures
            r.title@ == Seq::<char>::empty(),
            r.items@ == Seq::<String>::empty(),
    {
        ListPopup { title: String::new(), items: Vec::new() }
    }

    /// Shows `items` under `title`.
    pub fn set(&mut self, title: &str, items: Vec<String>)
        ensures
            final(self).title@ == title@,
            final(self).items == items,
    {
        self.title = title.to_owned();
        self.items = items;
    }
}

/// A popup that shows a message.
#[derive(Clone, Debug)]
pub struct ConfirmPopup {
    pub msg: Option<PopMsg>,
}

impl ConfirmPopup {
    /// A popup without message.
    pub fn new() -> (r: ConfirmPopup)
        ensures
            r.msg is None,
    {
        ConfirmPopup { msg: None }
    }

    /// Shows `msg`.
    pub fn show_msg(&mut self, msg: PopMsg)
        ensures
            final(self).msg == Some(msg),
    {
        self.msg = Some(msg);
    }

    /// Removes the message.
    pub fn clear(&mut self)
        ensures
            final(self).msg is None,
    {
        self.msg = None;
    }
}

} // verus!
