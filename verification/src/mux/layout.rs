//! Rectangles of cells that panes are laid out in.

use vstd::prelude::*;

verus! {

/// A rectangle of cells: its top-left corner and its size.
#[derive(Clone, Copy, Debug, PartialEq, Eq, Structural)]
pub struct Rect {
    pub x: u16,
    pub y: u16,
    pub width: u16,
    pub height: u16,
}

} // verus!
