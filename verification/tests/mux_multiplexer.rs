use basilisk::mux::multiplexer::Multiplexer;
use basilisk::mux::session::SessionId;

#[test]
fn multiplexer_new() {
    let mux = Multiplexer::new(None);
    assert_eq!(mux.session_count(), 0);
    assert!(mux.attached_id().is_none());
}

#[test]
fn multiplexer_create_session() {
    let mut mux = Multiplexer::new(None);
    let id = mux.create_session(Some("test".to_string())).unwrap();

    assert_eq!(mux.session_count(), 1);
    assert!(mux.has_session(id));
    assert_eq!(mux.attached_id(), Some(id));
}

#[test]
fn multiplexer_create_multiple_sessions() {
    let mut mux = Multiplexer::new(None);
    let id1 = mux.create_session(Some("one".to_string())).unwrap();
    let id2 = mux.create_session(Some("two".to_string())).unwrap();

    assert_eq!(mux.session_count(), 2);
    assert!(mux.has_session(id1));
    assert!(mux.has_session(id2));
    assert_eq!(mux.attached_id(), Some(id1));
}

#[test]
fn multiplexer_destroy_session() {
    let mut mux = Multiplexer::new(None);
    let id = mux.create_session(None).unwrap();

    assert!(mux.destroy_session(id));
    assert_eq!(mux.session_count(), 0);
    assert!(!mux.has_session(id));
}

#[test]
fn multiplexer_destroy_attached_session() {
    let mut mux = Multiplexer::new(None);
    let id1 = mux.create_session(Some("one".to_string())).unwrap();
    let id2 = mux.create_session(Some("two".to_string())).unwrap();

    assert!(mux.destroy_session(id1));
    assert_eq!(mux.attached_id(), Some(id2));
}

#[test]
fn multiplexer_attach_detach() {
    let mut mux = Multiplexer::new(None);
    let id1 = mux.create_session(Some("one".to_string())).unwrap();
    let id2 = mux.create_session(Some("two".to_string())).unwrap();

    assert!(mux.attach(id2));
    assert_eq!(mux.attached_id(), Some(id2));

    let detached = mux.detach();
    assert_eq!(detached, Some(id2));
    assert!(mux.attached_id().is_none());

    assert!(mux.attach(id1));
    assert_eq!(mux.attached_id(), Some(id1));
}

#[test]
fn multiplexer_attach_by_name() {
    let mut mux = Multiplexer::new(None);
    let _id1 = mux.create_session(Some("alpha".to_string())).unwrap();
    let id2 = mux.create_session(Some("beta".to_string())).unwrap();

    assert!(mux.attach_by_name("beta"));
    assert_eq!(mux.attached_id(), Some(id2));

    assert!(!mux.attach_by_name("nonexistent"));
}

#[test]
fn multiplexer_get_session() {
    let mut mux = Multiplexer::new(None);
    let id = mux.create_session(Some("test".to_string())).unwrap();

    let session = mux.get_session(id);
    assert!(session.is_some());
    assert_eq!(session.unwrap().name(), "test");
}

#[test]
fn multiplexer_get_session_by_name() {
    let mut mux = Multiplexer::new(None);
    let _id = mux.create_session(Some("findme".to_string())).unwrap();

    let session = mux.get_session_by_name("findme");
    assert!(session.is_some());

    let not_found = mux.get_session_by_name("nothere");
    assert!(not_found.is_none());
}

#[test]
fn multiplexer_list_sessions() {
    let mut mux = Multiplexer::new(None);
    mux.create_session(Some("one".to_string())).unwrap();
    mux.create_session(Some("two".to_string())).unwrap();

    let list = mux.list_sessions();
    assert_eq!(list.len(), 2);

    let names: Vec<_> = list.iter().map(|(_, n)| n.as_str()).collect();
    assert!(names.contains(&"one"));
    assert!(names.contains(&"two"));
}

#[test]
fn multiplexer_next_prev_session() {
    let mut mux = Multiplexer::new(None);
    let id1 = mux.create_session(Some("one".to_string())).unwrap();
    let id2 = mux.create_session(Some("two".to_string())).unwrap();
    let _id3 = mux.create_session(Some("three".to_string())).unwrap();

    mux.attach(id1);
    assert_eq!(mux.attached_id(), Some(id1));

    mux.next_session();
    assert!(mux.attached_id().is_some());
    assert_eq!(mux.attached_id(), Some(id2));

    mux.prev_session();
    assert!(mux.attached_id().is_some());
    assert_eq!(mux.attached_id(), Some(id1));
}

#[test]
fn multiplexer_attached_session() {
    let mut mux = Multiplexer::new(None);
    let id = mux.create_session(Some("test".to_string())).unwrap();

    let session = mux.attached_session();
    assert!(session.is_some());
    assert_eq!(session.unwrap().id(), id);
}

#[test]
fn multiplexer_with_shell() {
    let mux = Multiplexer::with_shell("/bin/zsh".to_string(), None);
    assert_eq!(mux.session_count(), 0);
}

#[test]
fn multiplexer_attach_nonexistent() {
    let mut mux = Multiplexer::new(None);
    let fake_id = SessionId::new(999);

    assert!(!mux.attach(fake_id));
    assert!(mux.attached_id().is_none());
}

#[test]
fn multiplexer_destroy_nonexistent() {
    let mut mux = Multiplexer::new(None);
    let fake_id = SessionId::new(999);

    assert!(!mux.destroy_session(fake_id));
}

#[test]
fn multiplexer_default_names_and_wrap() {
    let mut mux = Multiplexer::new(Some("/bin/zsh".to_string()));
    let id0 = mux.create_session(None).unwrap();
    let id1 = mux.create_session(None).unwrap();
    assert_eq!(id0, SessionId::new(0));
    assert_eq!(mux.get_session(id1).unwrap().name(), "session-1");
    assert_eq!(mux.get_session(id0).unwrap().shell(), "/bin/zsh");
    assert_eq!(mux.session_ids(), vec![id0, id1]);
    mux.attach(id1);
    mux.next_session();
    assert_eq!(mux.attached_id(), Some(id0));
    mux.prev_session();
    assert_eq!(mux.attached_id(), Some(id1));
    mux.detach();
    mux.prev_session();
    assert_eq!(mux.attached_id(), Some(id1));
    mux.detach();
    mux.next_session();
    assert_eq!(mux.attached_id(), Some(id0));
}

#[test]
fn multiplexer_session_changes_through_mut() {
    let mut mux = Multiplexer::new(None);
    let id = mux.create_session(Some("a".to_string())).unwrap();
    mux.attached_session_mut().unwrap().set_name("b");
    assert_eq!(mux.get_session(id).unwrap().name(), "b");
    mux.get_session_mut(id).unwrap().set_name("c");
    assert_eq!(mux.attached_session().unwrap().name(), "c");
}
