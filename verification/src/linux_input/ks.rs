//! Keysym constants used by the key tables (values from keysymdef.h).

use vstd::prelude::*;

verus! {

pub const BACKSPACE: u32 = 0xff08;
pub const TAB: u32 = 0xff09;
pub const ISO_LEFT_TAB: u32 = 0xfe20;
pub const RETURN: u32 = 0xff0d;
pub const ESCAPE: u32 = 0xff1b;
pub const DELETE: u32 = 0xffff;
pub const HOME: u32 = 0xff50;
pub const LEFT: u32 = 0xff51;
pub const UP: u32 = 0xff52;
pub const RIGHT: u32 = 0xff53;
pub const DOWN: u32 = 0xff54;
pub const PAGE_UP: u32 = 0xff55;
pub const PAGE_DOWN: u32 = 0xff56;
pub const END: u32 = 0xff57;
pub const INSERT: u32 = 0xff63;
pub const MENU: u32 = 0xff67;
pub const PRINT: u32 = 0xff61;
pub const SYS_REQ: u32 = 0xff15;
pub const PAUSE: u32 = 0xff13;
pub const SCROLL_LOCK: u32 = 0xff14;
pub const NUM_LOCK: u32 = 0xff7f;
pub const CAPS_LOCK: u32 = 0xffe5;
pub const SHIFT_L: u32 = 0xffe1;
pub const SHIFT_R: u32 = 0xffe2;
pub const CONTROL_L: u32 = 0xffe3;
pub const CONTROL_R: u32 = 0xffe4;
pub const META_L: u32 = 0xffe7;
pub const META_R: u32 = 0xffe8;
pub const ALT_L: u32 = 0xffe9;
pub const ALT_R: u32 = 0xffea;
pub const SUPER_L: u32 = 0xffeb;
pub const SUPER_R: u32 = 0xffec;
pub const KP_ENTER: u32 = 0xff8d;
pub const KP_MULTIPLY: u32 = 0xffaa;
pub const KP_ADD: u32 = 0xffab;
pub const KP_SUBTRACT: u32 = 0xffad;
pub const KP_DECIMAL: u32 = 0xffae;
pub const KP_DIVIDE: u32 = 0xffaf;
pub const KP_INSERT: u32 = 0xff9e;
pub const KP_DELETE: u32 = 0xff9f;
pub const KP_HOME: u32 = 0xff95;
pub const KP_UP: u32 = 0xff97;
pub const KP_PAGE_UP: u32 = 0xff9a;
pub const KP_LEFT: u32 = 0xff96;
pub const KP_BEGIN: u32 = 0xff9d;
pub const KP_RIGHT: u32 = 0xff98;
pub const KP_END: u32 = 0xff9c;
pub const KP_DOWN: u32 = 0xff99;
pub const KP_PAGE_DOWN: u32 = 0xff9b;

} // verus!
