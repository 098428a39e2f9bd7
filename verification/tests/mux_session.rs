use basilisk::mux::pane::PaneId;
use basilisk::mux::session::{Session, SessionId};
use basilisk::mux::window::{SplitDirection, Window, WindowId};
use basilisk::mux::pane::Pane;
use basilisk::mux::layout::Rect;
use basilisk::term::cell::{Color, ColorPalette};

#[test]
fn session_new() {
    let session = Session::new(SessionId::new(1), "test".into(), None);
    assert_eq!(session.id(), SessionId::new(1));
    assert_eq!(session.name(), "test");
    assert_eq!(session.window_count(), 0);
}

#[test]
fn session_with_window() {
    let session = Session::with_window(SessionId::new(1), "main".into(), 80, 24, None);
    assert_eq!(session.window_count(), 1);
    assert!(session.active_window().is_some());
}

#[test]
fn session_create_window() {
    let mut session = Session::new(SessionId::new(1), "test".into(), None);
    let win_id = session.create_window("win1".into());

    assert_eq!(session.window_count(), 1);
    assert!(session.window(win_id).is_some());
}

#[test]
fn session_close_window() {
    let mut session = Session::new(SessionId::new(1), "test".into(), None);
    let win_id = session.create_window("win1".into());

    assert!(session.close_window(win_id));
    assert_eq!(session.window_count(), 0);
    assert!(session.is_empty());
}

#[test]
fn session_focus_windows() {
    let mut session = Session::new(SessionId::new(1), "test".into(), None);
    session.create_window("win1".into());
    session.create_window("win2".into());

    assert_eq!(session.active_window_index(), 0);

    session.focus_next_window();
    assert_eq!(session.active_window_index(), 1);

    session.focus_next_window();
    assert_eq!(session.active_window_index(), 0);

    session.focus_prev_window();
    assert_eq!(session.active_window_index(), 1);
}

#[test]
fn session_set_name() {
    let mut session = Session::new(SessionId::new(1), "old".into(), None);
    session.set_name("new");
    assert_eq!(session.name(), "new");
}

#[test]
fn session_split_pane() {
    let mut session = Session::with_window(SessionId::new(1), "test".into(), 80, 24, None);

    let pane_id = session.split_pane(SplitDirection::Horizontal);
    assert!(pane_id.is_some());

    let window = session.active_window().unwrap();
    assert_eq!(window.pane_count(), 2);
}

#[test]
fn session_find_pane() {
    let session = Session::with_window(SessionId::new(1), "test".into(), 80, 24, None);

    let pane_id = session.active_pane().unwrap().id();
    let found = session.find_pane(pane_id);
    assert!(found.is_some());
}

#[test]
fn session_shell() {
    let mut session = Session::new(SessionId::new(1), "test".into(), None);
    session.set_shell("/bin/zsh");
    assert_eq!(session.shell(), "/bin/zsh");
}

#[test]
fn session_shell_from_environment() {
    let session = Session::new(SessionId::new(1), "t".into(), Some("/bin/fish".to_string()));
    assert_eq!(session.shell(), "/bin/fish");
    let session = Session::new(SessionId::new(1), "t".into(), None);
    assert_eq!(session.shell(), "/bin/sh");
}

#[test]
fn session_ids_are_fresh() {
    let mut session = Session::new(SessionId::new(1), "t".into(), None);
    let w1 = session.create_window("a".into());
    let w2 = session.create_window("b".into());
    assert_eq!(w1, WindowId::new(1));
    assert_eq!(w2, WindowId::new(2));
    assert!(session.close_window(w1));
    let w3 = session.create_window("c".into());
    assert_eq!(w3, WindowId::new(3));
    assert_eq!(session.windows()[0].panes()[0].id(), PaneId::new(2));
    assert_eq!(session.windows()[1].panes()[0].id(), PaneId::new(3));
    let p = session.split_pane(SplitDirection::Vertical);
    assert_eq!(p, Some(PaneId::new(4)));
}

#[test]
fn session_close_last_moves_focus_back() {
    let mut session = Session::new(SessionId::new(1), "t".into(), None);
    session.create_window("a".into());
    let w2 = session.create_window("b".into());
    assert!(session.set_active_window(1));
    assert!(session.close_window(w2));
    assert_eq!(session.active_window_index(), 0);
    assert!(!session.close_window(WindowId::new(99)));
    assert!(!session.set_active_window(5));
}

#[test]
fn session_set_active_window_by_id() {
    let mut session = Session::new(SessionId::new(1), "t".into(), None);
    session.create_window("a".into());
    let w2 = session.create_window("b".into());
    assert!(session.set_active_window_by_id(w2));
    assert_eq!(session.active_window_index(), 1);
    assert!(!session.set_active_window_by_id(WindowId::new(42)));
}

#[test]
fn session_split_without_window() {
    let mut session = Session::new(SessionId::new(1), "t".into(), None);
    assert_eq!(session.split_pane(SplitDirection::Horizontal), None);
    assert!(session.active_pane().is_none());
}

#[test]
fn session_to_state() {
    let mut session = Session::with_window(SessionId::new(5), "work".into(), 100, 30, Some("/bin/bash".into()));
    session.create_window("logs".into());
    session.focus_next_window();
    let st = session.to_state();
    assert_eq!(st.id, 5);
    assert_eq!(st.name, "work");
    assert_eq!(st.window_count, 2);
    assert_eq!(st.window_names, vec!["main".to_string(), "logs".to_string()]);
    assert_eq!(st.active_window_idx, 1);
    assert_eq!(st.shell, "/bin/bash");
    assert_eq!((st.cols, st.rows), (100, 30));
    assert_eq!(st.scrollback, 10000);
}

#[test]
fn session_resize_all_panes() {
    let mut session = Session::with_window(SessionId::new(1), "t".into(), 80, 24, None);
    session.split_pane(SplitDirection::Horizontal);
    assert!(session.resize(120, 40).is_ok());
    for p in session.windows()[0].panes() {
        assert_eq!(p.size(), (120, 40));
    }
}

#[test]
fn session_palette_applies_to_new_panes() {
    let mut session = Session::with_window(SessionId::new(1), "t".into(), 80, 24, None);
    let mut palette = ColorPalette { colors: [Color::rgb(0, 0, 0); 16] };
    palette.colors[1] = Color::rgb(1, 2, 3);
    session.apply_color_palette(&palette);
    assert_eq!(session.active_pane().unwrap().terminal().color_palette().colors[1], Color::rgb(1, 2, 3));
    session.split_pane(SplitDirection::Vertical);
    assert_eq!(session.active_pane().unwrap().terminal().color_palette().colors[1], Color::rgb(1, 2, 3));
}

#[test]
fn session_active_pane_mut_changes_the_pane() {
    let mut session = Session::with_window(SessionId::new(1), "t".into(), 80, 24, None);
    session.active_pane_mut().unwrap().set_title("top");
    assert_eq!(session.active_pane().unwrap().title(), "top");
    let id = session.active_pane().unwrap().id();
    session.find_pane_mut(id).unwrap().set_title("renamed");
    assert_eq!(session.find_pane(id).unwrap().1.title(), "renamed");
    assert!(session.find_pane_mut(PaneId::new(77)).is_none());
}

#[test]
fn session_paths() {
    assert_eq!(Session::socket_dir(Some("/run/user/1000")), "/run/user/1000/basilisk");
    assert_eq!(Session::socket_dir(None), "/tmp/basilisk");
    let session = Session::new(SessionId::new(3), "t".into(), None);
    assert_eq!(session.state_path(None), "/tmp/basilisk/session-3.json");
    assert_eq!(session.state_path(Some("/run/")), "/run/basilisk/session-3.json");
}

#[test]
fn window_panes_split_and_close() {
    let mut w = Window::new(WindowId::new(1), "w".into(), Pane::new(PaneId::new(1), 80, 24, 100));
    w.add_pane(Pane::new(PaneId::new(2), 80, 24, 100), SplitDirection::Horizontal);
    w.add_pane(Pane::new(PaneId::new(3), 80, 24, 100), SplitDirection::Vertical);
    assert_eq!(w.pane_count(), 3);
    assert_eq!(w.active_pane_index(), 2);
    assert_eq!(w.splits(), &[SplitDirection::Horizontal, SplitDirection::Vertical]);
    assert!(w.remove_pane(PaneId::new(3)));
    assert_eq!(w.active_pane_index(), 1);
    assert_eq!(w.splits(), &[SplitDirection::Horizontal]);
    assert!(w.remove_pane(PaneId::new(1)));
    assert_eq!(w.splits().len(), 0);
    assert_eq!(w.active_pane().unwrap().id(), PaneId::new(2));
    assert!(!w.remove_pane(PaneId::new(9)));
}

#[test]
fn window_focus_wraps() {
    let mut w = Window::new(WindowId::new(1), "w".into(), Pane::new(PaneId::new(1), 80, 24, 100));
    w.add_pane(Pane::new(PaneId::new(2), 80, 24, 100), SplitDirection::Horizontal);
    assert_eq!(w.active_pane_index(), 1);
    w.focus_next();
    assert_eq!(w.active_pane_index(), 0);
    w.focus_prev();
    assert_eq!(w.active_pane_index(), 1);
    assert!(w.pane(PaneId::new(2)).is_some());
    assert!(w.pane(PaneId::new(5)).is_none());
}

#[test]
fn rect_fields() {
    let r = Rect { x: 1, y: 2, width: 3, height: 4 };
    assert_eq!(r, Rect { x: 1, y: 2, width: 3, height: 4 });
}
