use basilisk::mux::pane::{Pane, PaneId};
use basilisk::mux::session::SessionId;

#[test]
fn pane_id_display() {
    let id = PaneId::new(42);
    assert_eq!(id.to_string(), "pane:42");
}

#[test]
fn session_id_display() {
    let id = SessionId::new(7);
    assert_eq!(id.to_string(), "session:7");
}

#[test]
fn pane_new() {
    let pane = Pane::new(PaneId::new(1), 80, 24, 1000);
    assert_eq!(pane.id(), PaneId::new(1));
    assert_eq!(pane.size(), (80, 24));
    assert!(!pane.has_exited());
}

#[test]
fn pane_title_default() {
    let pane = Pane::new(PaneId::new(1), 80, 24, 1000);
    assert!(pane.title().is_empty());
}

#[test]
fn pane_custom_title() {
    let mut pane = Pane::new(PaneId::new(1), 80, 24, 1000);
    pane.set_title("My Pane");
    assert_eq!(pane.title(), "My Pane");
}

#[test]
fn pane_title_from_terminal() {
    let mut pane = Pane::new(PaneId::new(1), 80, 24, 1000);
    assert!(pane.handle_output(b"\x1b]2;vim\x07"));
    assert_eq!(pane.title(), "vim");
}

#[test]
fn pane_resize() {
    let mut pane = Pane::new(PaneId::new(1), 80, 24, 1000);
    pane.resize(120, 40).unwrap();
    assert_eq!(pane.size(), (120, 40));
}

#[test]
fn pane_exit_status() {
    let mut pane = Pane::new(PaneId::new(1), 80, 24, 1000);
    assert!(pane.exit_status().is_none());

    pane.mark_exited(0);
    assert!(pane.has_exited());
    assert_eq!(pane.exit_status(), Some(0));
}

#[test]
fn pane_end_of_output_marks_exit() {
    let mut pane = Pane::new(PaneId::new(1), 80, 24, 1000);
    assert!(!pane.handle_output(&[]));
    assert_eq!(pane.exit_status(), Some(0));
    assert!(!pane.handle_output(b"late"));
}
