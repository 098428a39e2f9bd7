use basilisk::render::window::{Event, KeyCode, Modifiers, WindowConfig};

#[test]
fn window_config_default() {
    let config = WindowConfig::default();
    assert_eq!(config.title, "Basilisk");
    assert_eq!(config.width, 800);
    assert_eq!(config.height, 600);
}

#[test]
fn modifiers_default() {
    let mods = Modifiers::default();
    assert!(!mods.shift);
    assert!(!mods.ctrl);
    assert!(!mods.alt);
    assert!(!mods.meta);
}

#[test]
fn keycode_variants() {
    let key = KeyCode::Up;
    assert_eq!(key, KeyCode::Up);

    let char_key = KeyCode::Character('a');
    assert_eq!(char_key, KeyCode::Character('a'));
}

#[test]
fn event_variants() {
    let char_event = Event::Char('a');
    match char_event {
        Event::Char(c) => assert_eq!(c, 'a'),
        _ => panic!("Expected Char event"),
    }

    let resize = Event::Resize { width: 100, height: 200 };
    match resize {
        Event::Resize { width, height } => {
            assert_eq!(width, 100);
            assert_eq!(height, 200);
        }
        _ => panic!("Expected Resize event"),
    }
}
