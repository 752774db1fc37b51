//! Catppuccin Mocha colors, as red, green and blue in one number.

use vstd::prelude::*;

verus! {

pub const BASE: u32 = 0x1e1e2e;

pub const MANTLE: u32 = 0x181825;

pub const SURFACE_0: u32 = 0x313244;

pub const SURFACE_1: u32 = 0x45475a;

pub const SURFACE_2: u32 = 0x585b70;

pub const OVERLAY_0: u32 = 0x6c7086;

pub const SUBTEXT_0: u32 = 0xa6adc8;

pub const TEXT: u32 = 0xcdd6f4;

pub const LAVENDER: u32 = 0xb4befe;

pub const MAUVE: u32 = 0xcba6f7;

pub const RED: u32 = 0xf38ba8;

pub const PEACH: u32 = 0xfab387;

pub const YELLOW: u32 = 0xf9e2af;

pub const GREEN: u32 = 0xa6e3a1;

} // verus!
