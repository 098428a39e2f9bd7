pub mod keyboard;
pub mod bindings;
pub mod mouse;
pub mod commands;
pub mod frontend;

pub use keyboard::KeyboardHandler;
pub use mouse::{MouseHandler, MouseButton, MouseEvent};
pub use crate::render::window::{KeyCode, Modifiers};
