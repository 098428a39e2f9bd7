//! Multiplexer: sessions of windows of panes, the attach/detach message
//! format and what is saved of a session.
pub mod ipc;
pub mod layout;
pub mod persist;
pub mod pane;
pub mod window;
pub mod session;
pub mod multiplexer;

pub use ipc::IpcMessage;
pub use layout::Rect;
pub use pane::{Pane, PaneId};
pub use window::{Window, WindowId, SplitDirection};
pub use session::{Session, SessionId, SessionState};
pub use multiplexer::Multiplexer;
