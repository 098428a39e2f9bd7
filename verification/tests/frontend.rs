use basilisk::ansi::handler::Handler;
use basilisk::input::frontend::{after_output, is_prefix_key, FrontEnd, KeyOutcome, MouseOutcome};
use basilisk::input::commands::PrefixAction;
use basilisk::input::mouse::MouseButton;
use basilisk::mux::pane::PaneId;
use basilisk::mux::session::{Session, SessionId};
use basilisk::render::window::{KeyCode, Modifiers};

fn mods(ctrl: bool, shift: bool) -> Modifiers {
    Modifiers { shift, ctrl, alt: false, meta: false }
}

fn session() -> Session {
    Session::with_window(SessionId::new(1), "t".into(), 80, 24, None)
}

const PREFIX: Option<(bool, bool, bool, char)> = Some((true, false, false, 'b'));

#[test]
fn app_new() {
    let fe = FrontEnd::new();
    assert!(!fe.prefix_active);
    assert!(!fe.should_exit);
}

#[test]
fn prefix_then_new_window() {
    let mut fe = FrontEnd::new();
    let mut s = session();
    let out = fe.handle_key(&mut s, KeyCode::Character('b'), mods(true, false), 10, PREFIX);
    assert!(matches!(out, KeyOutcome::Done));
    assert!(fe.prefix_active);
    assert_eq!(fe.prefix_time, Some(10));
    let out = fe.handle_key(&mut s, KeyCode::Character('c'), mods(false, false), 20, PREFIX);
    assert!(matches!(out, KeyOutcome::Spawn(PaneId(2))));
    assert!(!fe.prefix_active);
    assert_eq!(s.window_count(), 2);
    assert_eq!(s.active_window_index(), 1);
    assert_eq!(s.windows()[1].name(), "new");
}

#[test]
fn prefix_key_matches_case_insensitively() {
    assert!(is_prefix_key(PREFIX, KeyCode::Character('B'), mods(true, false)));
    assert!(!is_prefix_key(PREFIX, KeyCode::Character('b'), mods(false, false)));
    assert!(!is_prefix_key(None, KeyCode::Character('b'), mods(true, false)));
}

#[test]
fn prefix_commands() {
    let mut fe = FrontEnd::new();
    let mut s = session();
    let out = fe.execute_prefix_action(&mut s, PrefixAction::SplitHorizontal);
    assert!(matches!(out, KeyOutcome::Spawn(PaneId(2))));
    assert_eq!(s.active_window().unwrap().pane_count(), 2);
    fe.execute_prefix_action(&mut s, PrefixAction::FocusPaneUp);
    assert_eq!(s.active_window().unwrap().active_pane_index(), 0);
    let out = fe.execute_prefix_action(&mut s, PrefixAction::ClosePane);
    assert!(matches!(out, KeyOutcome::Closed(PaneId(1))));
    assert_eq!(s.active_window().unwrap().pane_count(), 1);
    fe.execute_prefix_action(&mut s, PrefixAction::ZoomPane);
    assert!(fe.pane_zoomed);
    fe.execute_prefix_action(&mut s, PrefixAction::Detach);
    assert!(fe.should_exit);
    fe.execute_prefix_action(&mut s, PrefixAction::CopyMode);
    assert!(fe.copy_mode);
    assert_eq!(fe.copy_mode_cursor, (0, 0));
}

#[test]
fn copy_mode_navigation_and_yank() {
    let mut fe = FrontEnd::new();
    let mut s = session();
    s.active_pane_mut().unwrap().terminal_mut().process(b"hello");
    fe.execute_prefix_action(&mut s, PrefixAction::CopyMode);
    assert_eq!(fe.copy_mode_cursor, (5, 0));
    fe.handle_key(&mut s, KeyCode::Character('0'), mods(false, false), 0, PREFIX);
    fe.handle_key(&mut s, KeyCode::Character('v'), mods(false, false), 0, PREFIX);
    for _ in 0..4 {
        fe.handle_key(&mut s, KeyCode::Character('l'), mods(false, false), 0, PREFIX);
    }
    assert_eq!(fe.copy_mode_cursor, (4, 0));
    let out = fe.handle_key(&mut s, KeyCode::Character('y'), mods(false, false), 0, PREFIX);
    match out {
        KeyOutcome::Copy(t) => assert_eq!(t, "hello"),
        _ => panic!("expected copied text"),
    }
    assert!(!fe.copy_mode);
    fe.copy_mode = true;
    fe.handle_key(&mut s, KeyCode::Character('G'), mods(false, false), 0, PREFIX);
    assert_eq!(fe.copy_mode_cursor, (4, 23));
    fe.handle_key(&mut s, KeyCode::Character('$'), mods(false, false), 0, PREFIX);
    assert_eq!(fe.copy_mode_cursor, (79, 23));
    fe.handle_key(&mut s, KeyCode::Escape, mods(false, false), 0, PREFIX);
    assert!(!fe.copy_mode);
}

#[test]
fn keys_go_to_the_program() {
    let mut fe = FrontEnd::new();
    let mut s = session();
    match fe.handle_key(&mut s, KeyCode::Character('a'), mods(false, false), 0, PREFIX) {
        KeyOutcome::Write(b) => assert_eq!(b, b"a".to_vec()),
        _ => panic!("expected bytes"),
    }
    match fe.handle_key(&mut s, KeyCode::Up, mods(false, false), 0, PREFIX) {
        KeyOutcome::Write(b) => assert_eq!(b, b"\x1b[A".to_vec()),
        _ => panic!("expected bytes"),
    }
    assert!(matches!(fe.handle_key(&mut s, KeyCode::Character('v'), mods(true, true), 0, PREFIX), KeyOutcome::Paste));
    assert!(matches!(fe.handle_key(&mut s, KeyCode::Character('c'), mods(true, true), 0, PREFIX), KeyOutcome::Done));
}

#[test]
fn unknown_command_after_prefix_falls_through() {
    let mut fe = FrontEnd::new();
    let mut s = session();
    fe.handle_key(&mut s, KeyCode::Character('b'), mods(true, false), 0, PREFIX);
    let out = fe.handle_key(&mut s, KeyCode::Character('q'), mods(false, false), 5_000_000_000, PREFIX);
    assert!(matches!(out, KeyOutcome::Write(_)));
    assert!(!fe.prefix_active);
    assert_eq!(fe.prefix_time, None);
}

#[test]
fn scrollback_keys_page_through_history() {
    let mut fe = FrontEnd::new();
    let mut s = session();
    let mut text = Vec::new();
    for _ in 0..60 {
        text.extend_from_slice(b"line\r\n");
    }
    s.active_pane_mut().unwrap().terminal_mut().process(&text);
    fe.handle_key(&mut s, KeyCode::PageUp, mods(false, true), 0, PREFIX);
    assert_eq!(s.active_pane().unwrap().terminal().viewport_offset(), 24);
    fe.handle_key(&mut s, KeyCode::Home, mods(false, true), 0, PREFIX);
    assert_eq!(s.active_pane().unwrap().terminal().viewport_offset(), 37);
    fe.handle_key(&mut s, KeyCode::Character('x'), mods(false, false), 0, PREFIX);
    assert_eq!(s.active_pane().unwrap().terminal().viewport_offset(), 0);
}

#[test]
fn mouse_selection_and_paste() {
    let mut fe = FrontEnd::new();
    let mut s = session();
    assert!(matches!(fe.handle_mouse_button(&mut s, MouseButton::Left, true, (2, 1), false, false), MouseOutcome::Done));
    assert!(fe.mouse_pressed);
    fe.handle_mouse_move((5, 1));
    let sel = fe.selection.selection.unwrap();
    assert_eq!((sel.anchor.col, sel.current.col), (2, 5));
    fe.handle_mouse_button(&mut s, MouseButton::Left, false, (5, 1), false, false);
    assert!(!fe.mouse_pressed);
    fe.handle_mouse_move((9, 1));
    assert_eq!(fe.selection.selection.unwrap().current.col, 5);
    fe.handle_mouse_button(&mut s, MouseButton::Right, true, (7, 2), false, false);
    assert_eq!(fe.selection.selection.unwrap().current.line, 2);
    assert!(matches!(
        fe.handle_mouse_button(&mut s, MouseButton::Middle, true, (0, 0), false, false),
        MouseOutcome::Paste { bracketed: false }
    ));
}

#[test]
fn ctrl_click_opens_links() {
    let mut fe = FrontEnd::new();
    let mut s = session();
    {
        let t = s.active_pane_mut().unwrap().terminal_mut();
        t.set_hyperlink(None, Some("https://example.com"));
        t.process(b"link");
        t.set_hyperlink(None, None);
    }
    match fe.handle_mouse_button(&mut s, MouseButton::Left, true, (1, 0), false, true) {
        MouseOutcome::OpenUrl(u) => assert_eq!(u, "https://example.com"),
        _ => panic!("expected a link"),
    }
    assert!(!fe.mouse_pressed);
}

#[test]
fn bell_is_taken_after_output() {
    let mut s = session();
    s.active_pane_mut().unwrap().terminal_mut().process(b"\x07\x1b[?1h");
    assert!(after_output(&mut s));
    assert!(!after_output(&mut s));
    assert!(s.active_pane().unwrap().keyboard().application_cursor);
}
