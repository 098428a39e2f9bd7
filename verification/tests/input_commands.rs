use basilisk::input::commands::{
    copy_mode_key, prefix_action, scrollback_key, wheel_action, CopyModeCommand, PrefixAction, ViewportMove, WheelAction,
};
use basilisk::render::window::{KeyCode, Modifiers};

#[test]
fn prefix_keys() {
    assert_eq!(prefix_action(KeyCode::Character('c')), Some(PrefixAction::NewWindow));
    assert_eq!(prefix_action(KeyCode::Character('%')), Some(PrefixAction::SplitVertical));
    assert_eq!(prefix_action(KeyCode::Character('7')), Some(PrefixAction::SelectWindow(7)));
    assert_eq!(prefix_action(KeyCode::Left), Some(PrefixAction::FocusPaneLeft));
    assert_eq!(prefix_action(KeyCode::Character('Q')), None);
    assert_eq!(prefix_action(KeyCode::F1), None);
}

#[test]
fn copy_mode_navigation() {
    let max = (79, 23);
    assert_eq!(copy_mode_key((0, 0), KeyCode::Character('h'), max), ((0, 0), CopyModeCommand::Move));
    assert_eq!(copy_mode_key((78, 5), KeyCode::Character('w'), max), ((79, 5), CopyModeCommand::Move));
    assert_eq!(copy_mode_key((10, 5), KeyCode::Character('G'), max), ((10, 23), CopyModeCommand::Move));
    assert_eq!(copy_mode_key((10, 5), KeyCode::Character('y'), max), ((10, 5), CopyModeCommand::Yank));
    assert_eq!(copy_mode_key((10, 5), KeyCode::Escape, max), ((10, 5), CopyModeCommand::Exit));
    assert_eq!(copy_mode_key((10, 23), KeyCode::Down, max), ((10, 23), CopyModeCommand::Move));
}

#[test]
fn scrollback_paging_keys() {
    let shift = Modifiers { shift: true, ..Default::default() };
    let ctrl_shift = Modifiers { shift: true, ctrl: true, ..Default::default() };
    assert_eq!(scrollback_key(KeyCode::PageUp, shift, false, 24), Some(ViewportMove::Up(24)));
    assert_eq!(scrollback_key(KeyCode::PageUp, shift, true, 24), None);
    assert_eq!(scrollback_key(KeyCode::Home, shift, false, 24), Some(ViewportMove::Top));
    assert_eq!(scrollback_key(KeyCode::End, ctrl_shift, false, 24), Some(ViewportMove::Bottom));
    assert_eq!(scrollback_key(KeyCode::PageDown, Modifiers::default(), false, 24), None);
}

#[test]
fn wheel_turns() {
    assert_eq!(wheel_action(3, false), WheelAction::Scroll(ViewportMove::Up(3)));
    assert_eq!(wheel_action(-2, false), WheelAction::Scroll(ViewportMove::Down(2)));
    assert_eq!(wheel_action(-2, true), WheelAction::SendArrows { up: false, count: 2 });
    assert_eq!(wheel_action(0, true), WheelAction::Nothing);
}
