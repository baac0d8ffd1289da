//! Event mask bits, for filtering which events a client gets.

use vstd::prelude::*;

verus! {

pub const KEY_PRESS: u32 = 0x00000001;
pub const KEY_RELEASE: u32 = 0x00000002;
pub const BUTTON_PRESS: u32 = 0x00000004;
pub const BUTTON_RELEASE: u32 = 0x00000008;
pub const ENTER_WINDOW: u32 = 0x00000010;
pub const LEAVE_WINDOW: u32 = 0x00000020;
pub const POINTER_MOTION: u32 = 0x00000040;
pub const POINTER_MOTION_HINT: u32 = 0x00000080;
pub const BUTTON1_MOTION: u32 = 0x00000100;
pub const BUTTON2_MOTION: u32 = 0x00000200;
pub const BUTTON3_MOTION: u32 = 0x00000400;
pub const BUTTON4_MOTION: u32 = 0x00000800;
pub const BUTTON5_MOTION: u32 = 0x00001000;
pub const BUTTON_MOTION: u32 = 0x00002000;
pub const KEYMAP_STATE: u32 = 0x00004000;
pub const EXPOSURE: u32 = 0x00008000;
pub const VISIBILITY_CHANGE: u32 = 0x00010000;
pub const STRUCTURE_NOTIFY: u32 = 0x00020000;
pub const RESIZE_REDIRECT: u32 = 0x00040000;
pub const SUBSTRUCTURE_NOTIFY: u32 = 0x00080000;
pub const SUBSTRUCTURE_REDIRECT: u32 = 0x00100000;
pub const FOCUS_CHANGE: u32 = 0x00200000;
pub const PROPERTY_CHANGE: u32 = 0x00400000;
pub const COLORMAP_CHANGE: u32 = 0x00800000;
pub const OWNER_GRAB_BUTTON: u32 = 0x01000000;

} // verus!
