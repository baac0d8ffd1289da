//! Event type codes.

use vstd::prelude::*;

verus! {

pub const KEY_PRESS: u8 = 2;
pub const KEY_RELEASE: u8 = 3;
pub const BUTTON_PRESS: u8 = 4;
pub const BUTTON_RELEASE: u8 = 5;
pub const MOTION_NOTIFY: u8 = 6;
pub const ENTER_NOTIFY: u8 = 7;
pub const LEAVE_NOTIFY: u8 = 8;
pub const FOCUS_IN: u8 = 9;
pub const FOCUS_OUT: u8 = 10;
pub const KEYMAP_NOTIFY: u8 = 11;
pub const EXPOSE: u8 = 12;
pub const GRAPHICS_EXPOSURE: u8 = 13;
pub const NO_EXPOSURE: u8 = 14;
pub const VISIBILITY_NOTIFY: u8 = 15;
pub const CREATE_NOTIFY: u8 = 16;
pub const DESTROY_NOTIFY: u8 = 17;
pub const UNMAP_NOTIFY: u8 = 18;
pub const MAP_NOTIFY: u8 = 19;
pub const MAP_REQUEST: u8 = 20;
pub const REPARENT_NOTIFY: u8 = 21;
pub const CONFIGURE_NOTIFY: u8 = 22;
pub const CONFIGURE_REQUEST: u8 = 23;
pub const GRAVITY_NOTIFY: u8 = 24;
pub const RESIZE_REQUEST: u8 = 25;
pub const CIRCULATE_NOTIFY: u8 = 26;
pub const CIRCULATE_REQUEST: u8 = 27;
pub const PROPERTY_NOTIFY: u8 = 28;
pub const SELECTION_CLEAR: u8 = 29;
pub const SELECTION_REQUEST: u8 = 30;
pub const SELECTION_NOTIFY: u8 = 31;
pub const COLORMAP_NOTIFY: u8 = 32;
pub const CLIENT_MESSAGE: u8 = 33;
pub const MAPPING_NOTIFY: u8 = 34;

} // verus!
