use clashtui::tui::frontend::{the_egg, FrontEnd, KeyTarget};
use clashtui::tui::key_bind::{KeyCode, KeyEvent, KeyEventKind, Keys};
use clashtui::tui::{Call, CallBack, EventState, PopMsg};
use clashtui::ui::tabs::Tabs;

fn press(code: KeyCode) -> KeyEvent {
    KeyEvent { code, kind: KeyEventKind::Press }
}

#[test]
fn new_frontend() {
    let f = FrontEnd::new();
    assert_eq!(f.tabs(), &vec![Tabs::ProfileTab, Tabs::ClashsrvctlTab]);
    assert_eq!(f.tab_index(), 0);
    assert!(!f.should_quit());
    assert!(f.state().is_none());
    assert!(f.shown_list_popup().is_none());
    assert!(f.shown_msg().is_none());
    assert_eq!(f.key_target(), KeyTarget::Tab);
}

#[test]
fn tab_key_cycles() {
    let mut f = FrontEnd::new();
    assert_eq!(f.handle_key_event(&press(KeyCode::Tab), EventState::NotConsumed), EventState::NotConsumed);
    assert_eq!(f.tab_index(), 1);
    f.handle_key_event(&press(KeyCode::Tab), EventState::NotConsumed);
    assert_eq!(f.tab_index(), 0);
}

#[test]
fn digit_selects_tab() {
    let mut f = FrontEnd::new();
    f.handle_key_event(&press(KeyCode::Char('2')), EventState::NotConsumed);
    assert_eq!(f.tab_index(), 1);
    // beyond the number of tabs: no change
    f.handle_key_event(&press(KeyCode::Char('3')), EventState::NotConsumed);
    assert_eq!(f.tab_index(), 1);
    f.handle_key_event(&press(KeyCode::Char('0')), EventState::NotConsumed);
    assert_eq!(f.tab_index(), 1);
    f.handle_key_event(&press(KeyCode::Char('1')), EventState::NotConsumed);
    assert_eq!(f.tab_index(), 0);
}

#[test]
fn consumed_or_released_keys_do_nothing() {
    let mut f = FrontEnd::new();
    assert_eq!(f.handle_key_event(&press(KeyCode::Tab), EventState::WorkDone), EventState::WorkDone);
    assert_eq!(f.tab_index(), 0);
    let release = KeyEvent { code: KeyCode::Char('q'), kind: KeyEventKind::Release };
    assert_eq!(f.handle_key_event(&release, EventState::NotConsumed), EventState::NotConsumed);
    assert!(!f.should_quit());
}

#[test]
fn app_keys() {
    let mut f = FrontEnd::new();
    assert_eq!(f.handle_key_event(&press(KeyCode::Char('L')), EventState::NotConsumed), EventState::WorkDone);
    let calls = f.tick_calls(None, None);
    assert_eq!(calls, vec![Call::Tick, Call::Logs(0, 20)]);
    assert_eq!(f.handle_key_event(&press(KeyCode::Char('I')), EventState::NotConsumed), EventState::WorkDone);
    let calls = f.tick_calls(None, Some(Call::Infos));
    assert_eq!(calls, vec![Call::Tick, Call::Infos, Call::Infos]);
    assert_eq!(f.tick_calls(None, None), vec![Call::Tick]);
    assert_eq!(f.handle_key_event(&press(KeyCode::Char('?')), EventState::NotConsumed), EventState::WorkDone);
    let p = f.shown_list_popup().unwrap();
    assert_eq!(p.title, "Help");
    assert_eq!(p.items, Keys::all_doc());
    assert_eq!(f.key_target(), KeyTarget::ListPopup);
    assert_eq!(f.handle_key_event(&press(KeyCode::Char('x')), EventState::NotConsumed), EventState::WorkDone);
    assert!(f.shown_list_popup().is_some());
    assert_eq!(f.handle_key_event(&press(KeyCode::Esc), EventState::Cancel), EventState::WorkDone);
    assert!(f.shown_list_popup().is_none());
    assert_eq!(f.handle_key_event(&press(KeyCode::Char('q')), EventState::NotConsumed), EventState::WorkDone);
    assert!(f.should_quit());
    assert_eq!(f.handle_key_event(&press(KeyCode::Char('z')), EventState::NotConsumed), EventState::NotConsumed);
}

#[test]
fn callbacks() {
    let mut f = FrontEnd::new();
    assert!(f.apply_callback(CallBack::Error("boom".into())).is_none());
    match f.shown_msg() {
        Some(PopMsg::Prompt(lines)) => assert_eq!(lines, &vec!["Error Happened".to_string(), "boom".to_string()]),
        None => panic!("no message"),
    }
    assert_eq!(f.key_target(), KeyTarget::MsgPopup);
    // the tab did not finish with the popup: it stays
    assert_eq!(f.handle_key_event(&press(KeyCode::Enter), EventState::NotConsumed), EventState::WorkDone);
    assert!(f.shown_msg().is_some());
    assert_eq!(f.handle_key_event(&press(KeyCode::Enter), EventState::WorkDone), EventState::WorkDone);
    assert!(f.shown_msg().is_none());

    f.apply_callback(CallBack::Logs(vec!["l1".into()]));
    assert_eq!(f.shown_list_popup().unwrap().title, "Log");
    f.apply_callback(CallBack::Infos(vec!["i1".into()]));
    assert_eq!(f.shown_list_popup().unwrap().items, vec!["i1".to_string()]);
    f.apply_callback(CallBack::Edit);
    assert!(matches!(f.shown_msg(), Some(PopMsg::Prompt(l)) if l == &vec!["OK".to_string()]));
    f.apply_callback(CallBack::Preview(vec!["p".into()]));
    assert!(f.shown_msg().is_none());
    assert_eq!(f.shown_list_popup().unwrap().title, "Preview");
    f.apply_callback(CallBack::State("running".into()));
    assert_eq!(f.state(), &Some("running".to_string()));

    f.handle_key_event(&press(KeyCode::Esc), EventState::Cancel);
    f.handle_key_event(&press(KeyCode::Tab), EventState::NotConsumed);
    assert!(matches!(f.apply_callback(CallBack::ProfileInit(vec![])), Some((0, CallBack::ProfileInit(_)))));
    assert!(matches!(f.apply_callback(CallBack::ServiceCTL(vec!["x".into()])), Some((1, CallBack::ServiceCTL(_)))));
    assert!(matches!(f.apply_callback(CallBack::ProfileCTL(vec![])), Some((1, CallBack::ProfileCTL(_)))));
}

#[test]
fn tab_message_is_shown() {
    let mut f = FrontEnd::new();
    let calls = f.tick_calls(Some(PopMsg::Prompt(vec!["hi".into()])), None);
    assert_eq!(calls, vec![Call::Tick]);
    assert!(matches!(f.shown_msg(), Some(PopMsg::Prompt(l)) if l == &vec!["hi".to_string()]));
}

#[test]
fn get_list_popup_creates_once() {
    let mut f = FrontEnd::new();
    f.get_list_popup().set("A", vec!["x".into()]);
    assert_eq!(f.get_list_popup().title, "A");
    assert_eq!(f.get_list_popup().items, vec!["x".to_string()]);
}

#[test]
fn the_egg_sequence() {
    let seq = [
        KeyCode::Up, KeyCode::Up, KeyCode::Down, KeyCode::Down, KeyCode::Left, KeyCode::Right,
        KeyCode::Left, KeyCode::Right, KeyCode::Char('b'), KeyCode::Char('A'), KeyCode::Char('B'),
        KeyCode::Char('a'),
    ];
    let mut st = 0u8;
    for (i, k) in seq.iter().enumerate() {
        let found = the_egg(&mut st, *k);
        assert_eq!(found, i == 11);
    }
    assert_eq!(st, 12);
    // after the sequence any key starts over at one
    assert!(!the_egg(&mut st, KeyCode::Enter));
    assert_eq!(st, 1);
    // a wrong key resets
    assert!(!the_egg(&mut st, KeyCode::Left));
    assert_eq!(st, 0);
}

#[test]
fn the_egg_after_history() {
    let seq = [
        KeyCode::Up, KeyCode::Up, KeyCode::Down, KeyCode::Down, KeyCode::Left, KeyCode::Right,
        KeyCode::Left, KeyCode::Right, KeyCode::Char('b'), KeyCode::Char('a'), KeyCode::Char('b'),
        KeyCode::Char('a'),
    ];
    let mut st = 0u8;
    // a history of other keys, then the sequence
    for k in [KeyCode::Esc, KeyCode::Up, KeyCode::Left] {
        assert!(!the_egg(&mut st, k));
    }
    assert_eq!(st, 0);
    let mut last = false;
    for k in seq.iter() {
        last = the_egg(&mut st, *k);
    }
    assert!(last);
    // right after completion, the next key counts as the first step,
    // so eleven more keys of the sequence complete it again
    assert!(!the_egg(&mut st, KeyCode::Enter));
    for (i, k) in seq[1..].iter().enumerate() {
        assert_eq!(the_egg(&mut st, *k), i == 10);
    }
}
