use basilisk::clipboard::Clipboard;

#[test]
fn clipboard_new() {
    let clipboard = Clipboard::new();
    assert!(clipboard.internal_content().is_empty());
}

#[test]
fn clipboard_internal_copy() {
    let mut clipboard = Clipboard::new();
    clipboard.copy("test text").unwrap();
    assert_eq!(clipboard.internal_content(), "test text");
}

#[test]
fn clipboard_internal_paste() {
    let mut clipboard = Clipboard::new();
    clipboard.internal = "internal text".to_string();

    assert!(!clipboard.internal_content().is_empty());
}

#[test]
fn clipboard_overwrite() {
    let mut clipboard = Clipboard::new();
    clipboard.copy("first").unwrap();
    clipboard.copy("second").unwrap();
    assert_eq!(clipboard.internal_content(), "second");
}

#[test]
fn clipboard_empty_copy() {
    let mut clipboard = Clipboard::new();
    clipboard.copy("").unwrap();
    assert!(clipboard.internal_content().is_empty());
}

#[test]
fn clipboard_multiline() {
    let mut clipboard = Clipboard::new();
    let text = "line1\nline2\nline3";
    clipboard.copy(text).unwrap();
    assert_eq!(clipboard.internal_content(), text);
}

#[test]
fn clipboard_unicode() {
    let mut clipboard = Clipboard::new();
    let text = "Hello 世界 🎉";
    clipboard.copy(text).unwrap();
    assert_eq!(clipboard.internal_content(), text);
}

#[test]
fn clipboard_paste_prefers_system_text() {
    let mut clipboard = Clipboard::new();
    clipboard.copy("mine").unwrap();
    assert_eq!(clipboard.paste(Some("system".to_string())).unwrap(), "system");
    assert_eq!(clipboard.paste(None).unwrap(), "mine");
}
