use basilisk::input::bindings::{parse_action, Action, Bindings, KeyCombo};

#[test]
fn parse_key_combo() {
    let combo = KeyCombo::parse("ctrl+shift+c").unwrap();
    assert!(combo.ctrl);
    assert!(combo.shift);
    assert!(!combo.alt);
    assert_eq!(combo.key, 'c');
}

#[test]
fn parse_simple_key() {
    let combo = KeyCombo::parse("a").unwrap();
    assert!(!combo.ctrl);
    assert!(!combo.shift);
    assert!(!combo.alt);
    assert_eq!(combo.key, 'a');
}

#[test]
fn parse_key_combo_names_and_spaces() {
    let combo = KeyCombo::parse(" Control + Meta + Enter ").unwrap();
    assert!(combo.ctrl);
    assert!(combo.alt);
    assert_eq!(combo.key, '\n');
    assert!(KeyCombo::parse("ctrl+shift").is_none());
    assert_eq!(KeyCombo::parse("esc").unwrap().key, '\x1b');
}

#[test]
fn default_bindings_copy() {
    let bindings = Bindings::default_bindings();
    let combo = KeyCombo { ctrl: true, alt: false, shift: true, key: 'c' };
    assert_eq!(bindings.get(&combo), Some(&Action::Copy));
}

#[test]
fn bind_then_get() {
    let mut bindings = Bindings::new();
    let combo = KeyCombo { ctrl: true, alt: false, shift: false, key: 'z' };
    assert!(!bindings.is_bound(&combo));
    bindings.bind(combo, Action::ZoomPane);
    assert_eq!(bindings.get(&combo), Some(&Action::ZoomPane));
    bindings.bind(combo, Action::Detach);
    assert_eq!(bindings.get(&combo), Some(&Action::Detach));
    assert_eq!(bindings.entries.len(), 1);
}

#[test]
fn from_config_overrides_defaults() {
    let config = vec![
        ("Paste".to_string(), "ctrl+shift+c".to_string()),
        ("nonsense".to_string(), "ctrl+x".to_string()),
        ("hsplit".to_string(), "alt+h".to_string()),
    ];
    let bindings = Bindings::from_config(&config);
    let copy = KeyCombo { ctrl: true, alt: false, shift: true, key: 'c' };
    assert_eq!(bindings.get(&copy), Some(&Action::Paste));
    let x = KeyCombo { ctrl: true, alt: false, shift: false, key: 'x' };
    assert!(!bindings.is_bound(&x));
    let h = KeyCombo { ctrl: false, alt: true, shift: false, key: 'h' };
    assert_eq!(bindings.get(&h), Some(&Action::SplitHorizontal));
}

#[test]
fn parse_action_names() {
    assert_eq!(parse_action("SCROLL_PAGE_UP"), Some(Action::ScrollPageUp));
    assert_eq!(parse_action("vsplit"), Some(Action::SplitVertical));
    assert_eq!(parse_action("unknown"), None);
}

#[test]
fn default_bindings_follow_shortcut_table() {
    let b = Bindings::default_bindings();
    let k = |ch: char| KeyCombo { ctrl: true, alt: false, shift: true, key: ch };
    assert_eq!(b.get(&k('c')), Some(&Action::Copy));
    assert_eq!(b.get(&k('v')), Some(&Action::Paste));
    assert_eq!(b.get(&k('n')), Some(&Action::NewWindow));
    assert_eq!(b.get(&k('h')), Some(&Action::SplitHorizontal));
}
