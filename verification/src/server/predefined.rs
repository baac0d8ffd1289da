//! Numbers of the atoms that the protocol defines.

use vstd::prelude::*;

verus! {
pub const NONE: u32 = 0;
pub const PRIMARY: u32 = 1;
pub const SECONDARY: u32 = 2;
pub const ARC: u32 = 3;
pub const ATOM: u32 = 4;
pub const BITMAP: u32 = 5;
pub const CARDINAL: u32 = 6;
pub const COLORMAP: u32 = 7;
pub const CURSOR: u32 = 8;
pub const CUT_BUFFER0: u32 = 9;
pub const CUT_BUFFER1: u32 = 10;
pub const CUT_BUFFER2: u32 = 11;
pub const CUT_BUFFER3: u32 = 12;
pub const CUT_BUFFER4: u32 = 13;
pub const CUT_BUFFER5: u32 = 14;
pub const CUT_BUFFER6: u32 = 15;
pub const CUT_BUFFER7: u32 = 16;
pub const DRAWABLE: u32 = 17;
pub const FONT: u32 = 18;
pub const INTEGER: u32 = 19;
pub const PIXMAP: u32 = 20;
pub const POINT: u32 = 21;
pub const RECTANGLE: u32 = 22;
pub const RESOURCE_MANAGER: u32 = 23;
pub const RGB_COLOR_MAP: u32 = 24;
pub const RGB_BEST_MAP: u32 = 25;
pub const RGB_BLUE_MAP: u32 = 26;
pub const RGB_DEFAULT_MAP: u32 = 27;
pub const RGB_GRAY_MAP: u32 = 28;
pub const RGB_GREEN_MAP: u32 = 29;
pub const RGB_RED_MAP: u32 = 30;
pub const STRING: u32 = 31;
pub const VISUALID: u32 = 32;
pub const WINDOW: u32 = 33;
pub const WM_COMMAND: u32 = 34;
pub const WM_HINTS: u32 = 35;
pub const WM_CLIENT_MACHINE: u32 = 36;
pub const WM_ICON_NAME: u32 = 37;
pub const WM_ICON_SIZE: u32 = 38;
pub const WM_NAME: u32 = 39;
pub const WM_NORMAL_HINTS: u32 = 40;
pub const WM_SIZE_HINTS: u32 = 41;
pub const WM_ZOOM_HINTS: u32 = 42;
pub const MIN_SPACE: u32 = 43;
pub const NORM_SPACE: u32 = 44;
pub const MAX_SPACE: u32 = 45;
pub const END_SPACE: u32 = 46;
pub const SUPERSCRIPT_X: u32 = 47;
pub const SUPERSCRIPT_Y: u32 = 48;
pub const SUBSCRIPT_X: u32 = 49;
pub const SUBSCRIPT_Y: u32 = 50;
pub const UNDERLINE_POSITION: u32 = 51;
pub const UNDERLINE_THICKNESS: u32 = 52;
pub const STRIKEOUT_ASCENT: u32 = 53;
pub const STRIKEOUT_DESCENT: u32 = 54;
pub const ITALIC_ANGLE: u32 = 55;
pub const X_HEIGHT: u32 = 56;
pub const QUAD_WIDTH: u32 = 57;
pub const WEIGHT: u32 = 58;
pub const POINT_SIZE: u32 = 59;
pub const RESOLUTION: u32 = 60;
pub const COPYRIGHT: u32 = 61;
pub const NOTICE: u32 = 62;
pub const FONT_NAME: u32 = 63;
pub const FAMILY_NAME: u32 = 64;
pub const FULL_NAME: u32 = 65;
pub const CAP_HEIGHT: u32 = 66;
pub const WM_CLASS: u32 = 67;
pub const WM_TRANSIENT_FOR: u32 = 68;
pub const LAST_PREDEFINED: u32 = 68;

} // verus!
