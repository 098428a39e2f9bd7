use basilisk::cli::{
    choose_session, execute_command, session_directory, session_directory_for, session_listing, session_names,
    session_not_found, session_socket_path_in, socket_stem,
};
use basilisk::mux::ipc::{attach_start, attach_step, frame_length, AttachAction, AttachEvent, AttachStart, IpcMessage};
use basilisk::Error;

#[test]
fn execute_command_quotes() {
    assert_eq!(execute_command("ls -l", false), "/bin/sh -c 'ls -l'");
    assert_eq!(execute_command("echo 'hi'", false), "/bin/sh -c 'echo '\\''hi'\\'''");
    assert_eq!(
        execute_command("top", true),
        "/bin/sh -c 'top; echo; echo \"[Process exited - press Enter to close]\"; read'"
    );
}

#[test]
fn socket_names() {
    assert_eq!(socket_stem("work.sock"), Some("work".to_string()));
    assert_eq!(socket_stem("a.b.sock"), Some("a.b".to_string()));
    assert_eq!(socket_stem(".sock"), None);
    assert_eq!(socket_stem("work.json"), None);
    assert_eq!(socket_stem("work"), None);
    let files = vec!["x.sock".to_string(), "notes.txt".to_string(), "y.sock".to_string()];
    assert_eq!(session_names(&files), vec!["x".to_string(), "y".to_string()]);
}

#[test]
fn listing() {
    assert_eq!(session_listing(&[]), vec!["No sessions running".to_string()]);
    assert_eq!(
        session_listing(&["a".to_string(), "b".to_string()]),
        vec!["Sessions:".to_string(), "  a".to_string(), "  b".to_string()]
    );
}

#[test]
fn choosing_a_session() {
    assert_eq!(choose_session(Some("w".to_string()), &[]).unwrap(), "w");
    assert_eq!(choose_session(None, &["first".to_string(), "second".to_string()]).unwrap(), "first");
    match choose_session(None, &[]) {
        Err(Error::Config(m)) => assert_eq!(m, "No sessions available"),
        _ => panic!("expected an error"),
    }
    match session_not_found("x") {
        Error::Config(m) => assert_eq!(m, "Session 'x' not found"),
        _ => panic!("expected a config error"),
    }
}

#[test]
fn session_directory_exists() {
    let dir = session_directory();
    assert!(dir.contains("basilisk"));
}

#[test]
fn session_socket_path_format() {
    let dir = session_directory();
    let path = session_socket_path_in(&dir, "test");
    assert!(path.contains("basilisk"));
    assert!(path.ends_with("test.sock"));
}

#[test]
fn session_directory_choices() {
    assert_eq!(session_directory_for(Some("/run/u"), Some("/c")), "/run/u/basilisk/sessions");
    assert_eq!(session_directory_for(None, Some("/c/")), "/c/basilisk/sessions");
    assert_eq!(session_directory_for(None, None), "/tmp/basilisk/sessions");
    assert_eq!(session_socket_path_in("/d", "s"), "/d/s.sock");
}

#[test]
fn framing() {
    let f = IpcMessage::Output(vec![9, 8]).frame();
    assert_eq!(f, vec![7, 0, 0, 0, 0x04, 2, 0, 0, 0, 9, 8]);
    assert_eq!(frame_length(&[7, 0, 0, 0]), 7);
    assert_eq!(frame_length(&[0, 1, 0, 1]), 16777216 + 256);
}

#[test]
fn attach_decisions() {
    assert_eq!(attach_start(&Some(IpcMessage::AttachAck { cols: 80, rows: 24 })), AttachStart::Attached { cols: 80, rows: 24 });
    assert_eq!(attach_start(&Some(IpcMessage::SessionEnd)), AttachStart::Ended);
    assert_eq!(attach_start(&Some(IpcMessage::Detach)), AttachStart::Failed);
    assert_eq!(attach_start(&None), AttachStart::Failed);
    assert!(matches!(attach_step(AttachEvent::Typed(vec![1])), AttachAction::Send(IpcMessage::Input(d)) if d == vec![1]));
    assert!(matches!(attach_step(AttachEvent::InputClosed), AttachAction::Stop));
    assert!(matches!(attach_step(AttachEvent::Received(IpcMessage::Output(vec![2]))), AttachAction::Show(d) if d == vec![2]));
    assert!(matches!(attach_step(AttachEvent::Received(IpcMessage::SessionEnd)), AttachAction::SessionEnded));
    assert!(matches!(attach_step(AttachEvent::Received(IpcMessage::Resize { cols: 1, rows: 2 })), AttachAction::Resized { cols: 1, rows: 2 }));
    assert!(matches!(attach_step(AttachEvent::Received(IpcMessage::Attach)), AttachAction::Continue));
}

#[test]
fn session_socket_path_absolute_name_replaces_directory() {
    // As `Path::join` does: an absolute name stands on its own.
    assert_eq!(session_socket_path_in("/d", "/tmp/x"), "/tmp/x.sock");
    assert_eq!(session_socket_path_in("/d/", "s"), "/d/s.sock");
    assert_eq!(session_socket_path_in("", "s"), "s.sock");
}
