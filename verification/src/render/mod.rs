pub mod sixel;
pub mod window;
pub mod emoji;

pub use window::{Event, KeyCode, Modifiers, WindowConfig};
pub use sixel::{SixelDecoder, SixelImage, SixelColor};
pub mod atlas;
pub mod cell_style;
