use vstd::prelude::*;

verus! {

/// Geometry and identity of a tracked file dialog, in physical pixels
/// (from the dialog's DWM visual bounds).
#[derive(Debug, Clone, Copy, PartialEq, Eq)]
pub struct DialogInfo {
    pub hwnd: isize,
    pub x: i32,
    pub y: i32,
    pub width: i32,
    pub height: i32,
    pub dpi: u32,
}

/// One input intent produced on the overlay (translated by the keyboard hook).
#[derive(Debug, Clone, Copy, PartialEq, Eq)]
pub enum KeyAction {
    Char(char),
    Backspace,
    Up,
    Down,
    Enter,
    Escape,
}

} // verus!
