use vstd::prelude::*;

pub mod audio;
pub mod chip8;
pub mod consts;
pub mod display;
pub mod font;
pub mod keymap;
pub mod lemmas;

pub use crate::audio::{Audio, BeepCommand};
pub use crate::chip8::{Chip8, Chip8Error, Quirks};
pub use crate::display::{Display, DisplayError};
pub use crate::font::{font_characters, Character};
pub use crate::keymap::keypad_key;

verus! {

} // verus!
