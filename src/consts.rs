use vstd::prelude::*;

verus! {

/// Size of the addressable memory, in bytes.
pub const MEMORY_SIZE: usize = 0x1000;

/// Where a program is loaded and where execution starts.
pub const PROGRAM_START_ADDRESS: usize = 0x200;

/// Where the sixteen font glyphs are stored.
pub const FONT_START_ADDRESS: usize = 0x50;

/// Width of the screen, in pixels.
pub const WIDTH: usize = 64;

/// Height of the screen, in pixels.
pub const HEIGHT: usize = 32;

/// Shortest time between two draws when the display-wait quirk is on (1/60 s).
pub const FRAME_TIME_60HZ_NANOS: u64 = 16_666_667;

/// Default for the quirk that clears VF after `8xy1`, `8xy2` and `8xy3`.
pub const VF_RESET: bool = true;

/// Default for the quirk that makes `8xy6` and `8xyE` shift Vy instead of Vx.
pub const SHIFT_USE_VY: bool = false;

/// Default for the quirk that makes `Bnnn` jump to nnn + V0 instead of nnn + Vx.
pub const BNNN: bool = false;

/// Default for the quirk that makes `Fx55` and `Fx65` advance I by x + 1.
pub const STORE_LOAD_INCREMENTS_I: bool = true;

/// Default for the quirk that limits drawing to once per 1/60 s.
pub const DISPLAY_WAIT: bool = true;

} // verus!
