//! The state of the user interface and the decisions it takes on keys and on
//! answers of the back end.

use super::key_bind::{is_all_doc, spec_key_of, KeyCode, KeyEvent, KeyEventKind, Keys};
use super::widget::{ConfirmPopup, ListPopup};
use super::{Call, CallBack, EventState, PopMsg};
use crate::ui::tabs::Tabs;
use vstd::prelude::*;

verus! {

/// Which part of the user interface a key goes to.
#[derive(Clone, Copy, Debug, PartialEq, Eq, Structural)]
pub enum KeyTarget {
    /// the message popup; the result handed back is what the current tab
    /// made of the popup's answer
    MsgPopup,
    /// the list popup; the result handed back is the popup's answer
    ListPopup,
    /// the current tab; the result handed back is the tab's answer
    Tab,
}

/// The state of the user interface.
pub struct FrontEnd {
    tabs: Vec<Tabs>,
    tab_index: usize,
    there_is_list_pop: bool,
    list_popup: Option<Box<ListPopup>>,
    there_is_msg_pop: bool,
    msg_popup: ConfirmPopup,
    should_quit: bool,
    /// StateBar
    state: Option<String>,
    backend_content: Option<Call>,
}

/// The tab selected by key `code` when `len` tabs exist and `index` is
/// selected: a digit from 1 to `len` selects that tab, `Tab` selects the
/// next one, wrapping around.
pub open spec fn spec_next_tab(code: KeyCode, index: usize, len: usize) -> usize {
    match code {
        KeyCode::Char(c) => if '1' <= c <= '9' && (c as int) - ('0' as int) <= len {
            ((c as int) - ('0' as int) - 1) as usize
        } else {
            index
        },
        KeyCode::Tab => if index + 1 == len {
            0
        } else {
            (index + 1) as usize
        },
        _ => index,
    }
}

impl FrontEnd {
    pub closed spec fn spec_tabs(&self) -> Seq<Tabs> {
        self.tabs@
    }

    pub closed spec fn spec_tab_index(&self) -> usize {
        self.tab_index
    }

    pub closed spec fn spec_list_pop(&self) -> bool {
        self.there_is_list_pop
    }

    pub closed spec fn spec_list_popup(&self) -> Option<ListPopup> {
        match self.list_popup {
            Some(b) => Some(*b),
            None => None,
        }
    }

    pub closed spec fn spec_msg_pop(&self) -> bool {
        self.there_is_msg_pop
    }

    pub closed spec fn spec_msg(&self) -> Option<PopMsg> {
        self.msg_popup.msg
    }

    pub closed spec fn spec_should_quit(&self) -> bool {
        self.should_quit
    }

    pub closed spec fn spec_state(&self) -> Option<String> {
        self.state
    }

    pub closed spec fn spec_backend_content(&self) -> Option<Call> {
        self.backend_content
    }

    /// The selected tab exists.
    pub open spec fn wf(&self) -> bool {
        0 < self.spec_tabs().len() <= 9 && self.spec_tab_index() < self.spec_tabs().len()
    }

    /// Both states agree on everything but the popups.
    pub open spec fn same_tabs_and_backend(&self, other: &FrontEnd) -> bool {
        &&& self.spec_tabs() == other.spec_tabs()
        &&& self.spec_tab_index() == other.spec_tab_index()
        &&& self.spec_should_quit() == other.spec_should_quit()
        &&& self.spec_state() == other.spec_state()
        &&& self.spec_backend_content() == other.spec_backend_content()
    }

    /// The profile tab and the service tab, the first one selected, no popup.
    pub fn new() -> (r: FrontEnd)
        ensures
            r.wf(),
            r.spec_tabs() == seq![Tabs::ProfileTab, Tabs::ClashsrvctlTab],
            r.spec_tab_index() == 0,
            !r.spec_list_pop(),
            r.spec_list_popup() is None,
            !r.spec_msg_pop(),
            r.spec_msg() is None,
            !r.spec_should_quit(),
            r.spec_state() is None,
            r.spec_backend_content() is None,
    {
        let mut tabs: Vec<Tabs> = Vec::new();
        tabs.push(Tabs::ProfileTab);
        tabs.push(Tabs::ClashsrvctlTab);
        FrontEnd {
            tabs,
            tab_index: 0,
            there_is_list_pop: false,
            list_popup: None,
            there_is_msg_pop: false,
            msg_popup: ConfirmPopup::new(),
            should_quit: false,
            state: None,
            backend_content: None,
        }
    }

    /// Where the next key goes: the message popup first, then the list
    /// popup, then the current tab.
    pub open spec fn spec_key_target(&self) -> KeyTarget {
        if self.spec_msg_pop() {
            KeyTarget::MsgPopup
        } else if self.spec_list_pop() {
            KeyTarget::ListPopup
        } else {
            KeyTarget::Tab
        }
    }

    /// Where the next key goes.
    pub fn key_target(&self) -> (r: KeyTarget)
        ensures
            r == self.spec_key_target(),
    {
        if self.there_is_msg_pop {
            KeyTarget::MsgPopup
        } else if self.there_is_list_pop {
            KeyTarget::ListPopup
        } else {
            KeyTarget::Tab
        }
    }

    /// Handles key `ev`, where `sub` is the answer of the part that
    /// `key_target` names (see [`KeyTarget`]). A popup blocks everything
    /// else; a key that the tab leaves switches tabs (`1`..`9`, `Tab`) or
    /// triggers an application function (log, help, information, quit).
    pub fn handle_key_event(&mut self, ev: &KeyEvent, sub: EventState) -> (r: EventState)
        requires
            old(self).wf(),
        ensures
            final(self).wf(),
            old(self).spec_key_target() == KeyTarget::MsgPopup ==> r == EventState::WorkDone
                && final(self).spec_msg_pop() == (sub != EventState::WorkDone)
                && final(self).spec_list_pop() == old(self).spec_list_pop()
                && final(self).spec_list_popup() == old(self).spec_list_popup()
                && final(self).spec_msg() == old(self).spec_msg()
                && final(self).same_tabs_and_backend(old(self)),
            old(self).spec_key_target() == KeyTarget::ListPopup ==> r == EventState::WorkDone
                && final(self).spec_list_pop() == (sub != EventState::Cancel)
                && final(self).spec_msg_pop() == old(self).spec_msg_pop()
                && final(self).spec_list_popup() == old(self).spec_list_popup()
                && final(self).spec_msg() == old(self).spec_msg()
                && final(self).same_tabs_and_backend(old(self)),
            old(self).spec_key_target() == KeyTarget::Tab && (sub != EventState::NotConsumed
                || ev.kind != KeyEventKind::Press) ==> r == sub && *final(self) == *old(self),
            old(self).spec_key_target() == KeyTarget::Tab && sub == EventState::NotConsumed
                && ev.kind == KeyEventKind::Press ==> {
                &&& final(self).spec_tabs() == old(self).spec_tabs()
                &&& final(self).spec_tab_index() == spec_next_tab(
                    ev.code,
                    old(self).spec_tab_index(),
                    old(self).spec_tabs().len() as usize,
                )
                &&& final(self).spec_msg_pop() == old(self).spec_msg_pop()
                &&& final(self).spec_msg() == old(self).spec_msg()
                &&& final(self).spec_state() == old(self).spec_state()
                &&& r == if spec_key_of(ev.code) == Keys::Reserved {
                    EventState::NotConsumed
                } else {
                    EventState::WorkDone
                }
                &&& final(self).spec_backend_content() == match spec_key_of(ev.code) {
                    Keys::LogCat => Some(Call::Logs(0, 20)),
                    Keys::AppInfo => Some(Call::Infos),
                    _ => old(self).spec_backend_content(),
                }
                &&& final(self).spec_should_quit() == (old(self).spec_should_quit() || spec_key_of(
                    ev.code,
                ) == Keys::AppQuit)
                &&& spec_key_of(ev.code) == Keys::AppHelp ==> final(self).spec_list_pop() && (
                final(self).spec_list_popup() matches Some(p) && p.title@ == "Help"@ && is_all_doc(p.items@))
                &&& spec_key_of(ev.code) != Keys::AppHelp ==> final(self).spec_list_pop()
                    == old(self).spec_list_pop() && final(self).spec_list_popup()
                    == old(self).spec_list_popup()
            },
    {
        if self.there_is_msg_pop {
            if sub == EventState::WorkDone {
                self.there_is_msg_pop = false;
            }
            return EventState::WorkDone;
        }
        if self.there_is_list_pop {
            if sub == EventState::Cancel {
                self.there_is_list_pop = false;
            }
            return EventState::WorkDone;
        }
        let mut evst = sub;
        if evst == EventState::NotConsumed {
            if ev.kind != KeyEventKind::Press {
                return EventState::NotConsumed;
            }
            // if work is not done, this will be reset
            evst = EventState::WorkDone;
            match ev.code {
                KeyCode::Char(c) => {
                    if '1' <= c && c <= '9' {
                        let d = (c as u32) - ('0' as u32);
                        if d as usize <= self.tabs.len() {
                            self.tab_index = (d - 1) as usize;
                        }
                    }
                },
                KeyCode::Tab => {
                    self.tab_index = self.tab_index + 1;
                    if self.tab_index == self.tabs.len() {
                        self.tab_index = 0;
                    }
                },
                _ => {},
            }
            match Keys::from_code(ev.code) {
                Keys::LogCat => self.backend_content = Some(Call::Logs(0, 20)),
                Keys::AppHelp => {
                    let docs = Keys::all_doc();
                    self.get_list_popup().set("Help", docs);
                    self.there_is_list_pop = true;
                },
                Keys::AppInfo => self.backend_content = Some(Call::Infos),
                Keys::AppQuit => {
                    self.should_quit = true;
                },
                _ => evst = EventState::NotConsumed,
            }
        }
        evst
    }

    /// Takes in an answer of the back end: errors and edits show a message,
    /// logs, information and previews show a list, a state goes to the state
    /// bar. An answer for a tab is handed back with the index of that tab:
    /// the profile tab (the first) for its initial data, the current tab for
    /// the outcome of a command.
    pub fn apply_callback(&mut self, cb: CallBack) -> (r: Option<(usize, CallBack)>)
        requires
            old(self).wf(),
        ensures
            final(self).wf(),
            final(self).spec_tabs() == old(self).spec_tabs(),
            final(self).spec_tab_index() == old(self).spec_tab_index(),
            final(self).spec_should_quit() == old(self).spec_should_quit(),
            final(self).spec_backend_content() == old(self).spec_backend_content(),
            match cb {
                CallBack::Error(e) => r is None && final(self).spec_msg_pop() && (final(self).spec_msg() matches Some(PopMsg::Prompt(lines)) && lines@.len() == 2
                    && lines@[0]@ == "Error Happened"@ && lines@[1] == e)
                    && final(self).spec_list_pop() == old(self).spec_list_pop()
                    && final(self).spec_list_popup() == old(self).spec_list_popup()
                    && final(self).spec_state() == old(self).spec_state(),
                CallBack::Logs(l) => r is None && final(self).spec_list_pop() && (final(self).spec_list_popup() matches Some(p) && p.title@ == "Log"@ && p.items == l)
                    && final(self).spec_msg_pop() == old(self).spec_msg_pop()
                    && final(self).spec_msg() == old(self).spec_msg()
                    && final(self).spec_state() == old(self).spec_state(),
                CallBack::Infos(l) => r is None && final(self).spec_list_pop() && (final(self).spec_list_popup() matches Some(p) && p.title@ == "Infos"@ && p.items == l)
                    && final(self).spec_msg_pop() == old(self).spec_msg_pop()
                    && final(self).spec_msg() == old(self).spec_msg()
                    && final(self).spec_state() == old(self).spec_state(),
                CallBack::Preview(l) => r is None && final(self).spec_list_pop() && (final(self).spec_list_popup() matches Some(p) && p.title@ == "Preview"@ && p.items == l)
                    && !final(self).spec_msg_pop() && final(self).spec_msg() is None
                    && final(self).spec_state() == old(self).spec_state(),
                CallBack::Edit => r is None && final(self).spec_msg_pop() && (final(self).spec_msg() matches Some(PopMsg::Prompt(lines)) && lines@.len() == 1
                    && lines@[0]@ == "OK"@)
                    && final(self).spec_list_pop() == old(self).spec_list_pop()
                    && final(self).spec_list_popup() == old(self).spec_list_popup()
                    && final(self).spec_state() == old(self).spec_state(),
                CallBack::State(st) => r is None && final(self).spec_state() == Some(st)
                    && final(self).spec_msg_pop() == old(self).spec_msg_pop()
                    && final(self).spec_msg() == old(self).spec_msg()
                    && final(self).spec_list_pop() == old(self).spec_list_pop()
                    && final(self).spec_list_popup() == old(self).spec_list_popup(),
                CallBack::ProfileInit(_) => r == Some((0usize, cb)) && *final(self) == *old(self),
                CallBack::ProfileCTL(_) => r == Some((old(self).spec_tab_index(), cb))
                    && *final(self) == *old(self),
                CallBack::ServiceCTL(_) => r == Some((old(self).spec_tab_index(), cb))
                    && *final(self) == *old(self),
            },
    {
        match cb {
            CallBack::Error(error) => {
                self.msg_popup.clear();
                let mut lines: Vec<String> = Vec::new();
                lines.push("Error Happened".to_owned());
                lines.push(error);
                self.msg_popup.show_msg(PopMsg::Prompt(lines));
                self.there_is_msg_pop = true;
                None
            },
            CallBack::Logs(logs) => {
                self.get_list_popup().set("Log", logs);
                self.there_is_list_pop = true;
                None
            },
            CallBack::Infos(infos) => {
                self.get_list_popup().set("Infos", infos);
                self.there_is_list_pop = true;
                None
            },
            CallBack::Preview(content) => {
                self.msg_popup.clear();
                self.there_is_msg_pop = false;
                self.get_list_popup().set("Preview", content);
                self.there_is_list_pop = true;
                None
            },
            CallBack::Edit => {
                self.msg_popup.clear();
                let mut lines: Vec<String> = Vec::new();
                lines.push("OK".to_owned());
                self.msg_popup.show_msg(PopMsg::Prompt(lines));
                self.there_is_msg_pop = true;
                None
            },
            // `SwitchMode` goes here: just update the state bar
            CallBack::State(state) => {
                self.state = Some(state);
                None
            },
            // the profile tab is the first tab
            CallBack::ProfileInit(x) => Some((0, CallBack::ProfileInit(x))),
            CallBack::ProfileCTL(x) => Some((self.tab_index, CallBack::ProfileCTL(x))),
            CallBack::ServiceCTL(x) => Some((self.tab_index, CallBack::ServiceCTL(x))),
        }
    }

    /// The requests of one tick, in the order they are sent: the wake-up
    /// call, then the request that the application left, then the request
    /// of the current tab. A message of the current tab is shown.
    pub fn tick_calls(&mut self, tab_msg: Option<PopMsg>, tab_call: Option<Call>) -> (r: Vec<Call>)
        requires
            old(self).wf(),
        ensures
            final(self).wf(),
            r@ == seq![Call::Tick] + (match old(self).spec_backend_content() {
                Some(c) => seq![c],
                None => Seq::empty(),
            }) + (match tab_call {
                Some(c) => seq![c],
                None => Seq::empty(),
            }),
            final(self).spec_backend_content() is None,
            final(self).spec_msg_pop() == (old(self).spec_msg_pop() || tab_msg is Some),
            final(self).spec_msg() == match tab_msg {
                Some(m) => Some(m),
                None => old(self).spec_msg(),
            },
            final(self).spec_tabs() == old(self).spec_tabs(),
            final(self).spec_tab_index() == old(self).spec_tab_index(),
            final(self).spec_should_quit() == old(self).spec_should_quit(),
            final(self).spec_state() == old(self).spec_state(),
            final(self).spec_list_pop() == old(self).spec_list_pop(),
            final(self).spec_list_popup() == old(self).spec_list_popup(),
    {
        let mut calls: Vec<Call> = Vec::new();
        calls.push(Call::Tick);
        if let Some(msg) = tab_msg {
            self.msg_popup.show_msg(msg);
            self.there_is_msg_pop = true;
        }
        if let Some(op) = self.backend_content.take() {
            calls.push(op);
        }
        if let Some(op) = tab_call {
            calls.push(op);
        }
        assert(calls@ =~= seq![Call::Tick] + (match old(self).spec_backend_content() {
            Some(c) => seq![c],
            None => Seq::empty(),
        }) + (match tab_call {
            Some(c) => seq![c],
            None => Seq::empty(),
        }));
        calls
    }

    /// The selected tab.
    pub fn tab_index(&self) -> (r: usize)
        ensures
            r == self.spec_tab_index(),
    {
        self.tab_index
    }

    /// The tabs, in order.
    pub fn tabs(&self) -> (r: &Vec<Tabs>)
        ensures
            r@ == self.spec_tabs(),
    {
        &self.tabs
    }

    /// Whether the application is to quit.
    pub fn should_quit(&self) -> (r: bool)
        ensures
            r == self.spec_should_quit(),
    {
        self.should_quit
    }

    /// The text of the state bar.
    pub fn state(&self) -> (r: &Option<String>)
        ensures
            *r == self.spec_state(),
    {
        &self.state
    }

    /// The list popup, when it is shown.
    pub fn shown_list_popup(&self) -> (r: Option<&ListPopup>)
        ensures
            r matches Some(p) ==> self.spec_list_pop() && self.spec_list_popup() == Some(*p),
            r is None ==> !self.spec_list_pop() || self.spec_list_popup() is None,
    {
        if self.there_is_list_pop {
            match &self.list_popup {
                Some(p) => Some(&**p),
                None => None,
            }
        } else {
            None
        }
    }

    /// The message of the message popup, when it is shown.
    pub fn shown_msg(&self) -> (r: Option<&PopMsg>)
        ensures
            r matches Some(m) ==> self.spec_msg_pop() && self.spec_msg() == Some(*m),
            r is None ==> !self.spec_msg_pop() || self.spec_msg() is None,
    {
        if self.there_is_msg_pop {
            match &self.msg_popup.msg {
                Some(m) => Some(m),
                None => None,
            }
        } else {
            None
        }
    }

    /// The list popup, made empty first if there is none yet.
    pub fn get_list_popup(&mut self) -> (r: &mut Box<ListPopup>)
        ensures
            old(self).spec_list_popup() matches Some(p) ==> **r == p,
            old(self).spec_list_popup() is None ==> (**r).title@ == Seq::<char>::empty()
                && (**r).items@ == Seq::<String>::empty(),
            final(self).spec_list_popup() == Some(**final(r)),
            final(self).spec_list_pop() == old(self).spec_list_pop(),
            final(self).spec_msg_pop() == old(self).spec_msg_pop(),
            final(self).spec_msg() == old(self).spec_msg(),
            final(self).same_tabs_and_backend(old(self)),
    {
        if self.list_popup.is_none() {
            self.list_popup = Some(Box::new(ListPopup::new()));
        }
        self.list_popup.as_mut().unwrap()
    }
}

/// Whether `key` is the key expected at step `n` of the secret sequence:
/// up, up, down, down, left, right, left, right, b, a, b, a (either case).
pub open spec fn egg_key_ok(n: u8, key: KeyCode) -> bool {
    if n == 0 || n == 1 {
        key == KeyCode::Up
    } else if n == 2 || n == 3 {
        key == KeyCode::Down
    } else if n == 4 || n == 6 {
        key == KeyCode::Left
    } else if n == 5 || n == 7 {
        key == KeyCode::Right
    } else if n == 8 || n == 10 {
        key == KeyCode::Char('b') || key == KeyCode::Char('B')
    } else if n == 9 || n == 11 {
        key == KeyCode::Char('a') || key == KeyCode::Char('A')
    } else {
        false
    }
}

/// The progress after `key` when `n` keys of the sequence were seen: one
/// more on the expected key, back to zero on any other key, and back to one
/// after the sequence was completed.
pub open spec fn egg_step(n: u8, key: KeyCode) -> u8 {
    if n == 12 {
        1
    } else if egg_key_ok(n, key) {
        (n + 1) as u8
    } else {
        0
    }
}

/// The progress after `keys`, starting from `n`.
pub open spec fn egg_run(n: u8, keys: Seq<KeyCode>) -> u8
    decreases keys.len(),
{
    if keys.len() == 0 {
        n
    } else {
        egg_step(egg_run(n, keys.drop_last()), keys.last())
    }
}

/// Records `key` in the progress `current` through the secret sequence and
/// tells whether the sequence is now complete.
pub fn the_egg(current: &mut u8, key: KeyCode) -> (r: bool)
    ensures
        *final(current) == egg_step(*old(current), key),
        r == (*final(current) == 12),
{
    let n = *current;
    let ok = match n {
        0 | 1 => key == KeyCode::Up,
        2 | 3 => key == KeyCode::Down,
        4 | 6 => key == KeyCode::Left,
        5 | 7 => key == KeyCode::Right,
        8 | 10 => key == KeyCode::Char('b') || key == KeyCode::Char('B'),
        9 | 11 => key == KeyCode::Char('a') || key == KeyCode::Char('A'),
        _ => false,
    };
    if ok {
        *current = n + 1;
    } else if n == 12 {
        *current = 1;
    } else {
        *current = 0;
        return false;
    }
    *current == 12
}

/// From the start, the progress counts the keys seen while they follow the
/// secret sequence: after at most twelve keys it equals their number exactly
/// when each key was the expected one, so the sequence is complete after
/// twelve keys exactly when they were the sequence.
pub proof fn lemma_egg_sequence(keys: Seq<KeyCode>)
    requires
        keys.len() <= 12,
    ensures
        egg_run(0, keys) <= keys.len(),
        (egg_run(0, keys) == keys.len()) <==> (forall|i: int|
            0 <= i < keys.len() ==> #[trigger] egg_key_ok(i as u8, keys[i])),
    decreases keys.len(),
{
    if keys.len() > 0 {
        let k0 = keys.drop_last();
        lemma_egg_sequence(k0);
        let n = keys.len() - 1;
        assert forall|i: int| 0 <= i < n implies #[trigger] keys[i] == k0[i] by {}
        if egg_run(0, k0) == n {
            if (forall|i: int| 0 <= i < keys.len() ==> #[trigger] egg_key_ok(i as u8, keys[i])) {
                assert(egg_key_ok(n as u8, keys[n]));
            }
            if egg_run(0, keys) == keys.len() {
                assert forall|i: int| 0 <= i < keys.len() implies #[trigger] egg_key_ok(
                    i as u8,
                    keys[i],
                ) by {
                    if i < n {
                        assert(egg_key_ok(i as u8, k0[i]));
                    }
                }
            }
        } else {
            if (forall|i: int| 0 <= i < keys.len() ==> #[trigger] egg_key_ok(i as u8, keys[i])) {
                assert forall|i: int| 0 <= i < n implies #[trigger] egg_key_ok(i as u8, k0[i]) by {
                    assert(egg_key_ok(i as u8, keys[i]));
                }
            }
        }
    }
}

/// The selected tab after `k` presses of `Tab`.
pub open spec fn tab_presses(index: usize, len: usize, k: nat) -> usize
    decreases k,
{
    if k == 0 {
        index
    } else {
        spec_next_tab(KeyCode::Tab, tab_presses(index, len, (k - 1) as nat), len)
    }
}

/// `Tab` cycles through the tabs: after `k` presses the selected tab is the
/// one `k` places further, counted modulo the number of tabs; a digit `d`
/// from 1 to the number of tabs selects tab `d`.
pub proof fn lemma_tab_cycle(index: usize, len: usize, k: nat)
    requires
        0 < len <= 9,
        index < len,
    ensures
        tab_presses(index, len, k) == (index + k) % (len as int),
        forall|d: int| 1 <= d <= len ==> #[trigger] spec_next_tab(
            KeyCode::Char(('0' as int + d) as char),
            index,
            len,
        ) == d - 1,
    decreases k,
{
    if k > 0 {
        lemma_tab_cycle(index, len, (k - 1) as nat);
        let p = tab_presses(index, len, (k - 1) as nat);
        assert(p == (index + k - 1) % (len as int));
        if p + 1 == len {
            assert((index + k) % (len as int) == 0) by (nonlinear_arith)
                requires
                    p == (index + k - 1) % (len as int),
                    p + 1 == len,
                    len > 0,
            ;
        } else {
            assert((index + k) % (len as int) == p + 1) by (nonlinear_arith)
                requires
                    p == (index + k - 1) % (len as int),
                    p + 1 < len,
                    len > 0,
            ;
        }
    } else {
        assert((index as int) % (len as int) == index) by (nonlinear_arith)
            requires
                index < len,
        ;
    }
}

/// Over any history of keys from the start, the progress stays within 0 to
/// 12; a progress of `r` (at least one) means that the last `r - 1` keys were
/// steps 1 to `r - 1` of the sequence and that the progress before them was
/// 1, which only the key up from 0, or any key after a completed sequence,
/// gives. So a true answer means the last eleven keys were steps 1 to 11
/// (down, down, left, right, left, right, b, a, b, a) after such a first step.
pub proof fn lemma_egg_history(keys: Seq<KeyCode>)
    ensures
        egg_run(0, keys) <= 12,
        egg_run(0, keys) >= 1 ==> {
            let r = egg_run(0, keys) as int;
            let m = keys.len() - (r - 1);
            &&& m >= 1
            &&& egg_run(0, keys.take(m)) == 1
            &&& forall|j: int| 1 <= j < r ==> #[trigger] egg_key_ok(j as u8, keys[m - 1 + j])
        },
        forall|p: u8, c: KeyCode| #[trigger] egg_step(p, c) == 1 <==> (p == 0 && c == KeyCode::Up) || p == 12,
    decreases keys.len(),
{
    if keys.len() > 0 {
        let k0 = keys.drop_last();
        lemma_egg_history(k0);
        let p = egg_run(0, k0);
        let c = keys.last();
        let r = egg_run(0, keys);
        let n = keys.len();
        assert(r == egg_step(p, c));
        if r >= 1 {
            if r == 1 {
                assert(keys.take(n as int) =~= keys);
            } else {
                // r = p + 1 with p >= 1 and c the expected key
                assert(p >= 1 && egg_key_ok(p, c) && r == p + 1);
                let m0 = k0.len() - (p - 1);
                assert(keys.take(m0) =~= k0.take(m0));
                assert forall|j: int| 1 <= j < r implies #[trigger] egg_key_ok(j as u8, keys[m0 - 1 + j]) by {
                    if j < p {
                        assert(keys[m0 - 1 + j] == k0[m0 - 1 + j]);
                    } else {
                        assert(m0 - 1 + j == n - 1);
                    }
                }
            }
        }
    }
}

/// A true answer after any history from the start: the last twelve keys are
/// a first key followed by steps 1 to 11 of the sequence, and that first key
/// was either the key up with no progress before it (so the last twelve keys
/// were the whole sequence), or any key right after a completed sequence.
pub proof fn lemma_egg_complete(keys: Seq<KeyCode>)
    requires
        egg_run(0, keys) == 12,
    ensures
        keys.len() >= 12,
        forall|j: int| 1 <= j < 12 ==> #[trigger] egg_key_ok(j as u8, keys[keys.len() - 12 + j]),
        ({
            let before = egg_run(0, keys.take(keys.len() - 12));
            (before == 0 && keys[keys.len() - 12] == KeyCode::Up) || before == 12
        }),
        egg_run(0, keys.take(keys.len() - 12)) == 0 ==> forall|j: int|
            0 <= j < 12 ==> #[trigger] egg_key_ok(j as u8, keys[keys.len() - 12 + j]),
{
    lemma_egg_history(keys);
    let n = keys.len();
    let m = n - 11;
    let t = keys.take(m);
    assert(t.drop_last() =~= keys.take(m - 1));
    assert(t.last() == keys[m - 1]);
    assert(egg_run(0, t) == egg_step(egg_run(0, keys.take(m - 1)), keys[m - 1]));
    if egg_run(0, keys.take(n - 12)) == 0 {
        assert forall|j: int| 0 <= j < 12 implies #[trigger] egg_key_ok(j as u8, keys[n - 12 + j]) by {
            if j >= 1 {
                assert(egg_key_ok(j as u8, keys[m - 1 + j]));
            }
        }
    }
}

} // verus!
