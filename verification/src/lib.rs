pub mod cpu;
pub mod frame_buffer;
pub mod keypad;
pub mod laws;
pub mod screen;
pub mod sprite;

use vstd::prelude::*;

verus! {

/// Wrap sprites horizontally when they cross the right edge of the display.
pub const WRAP_X: bool = true;

/// Wrap sprites vertically when they cross the bottom edge of the display.
pub const WRAP_Y: bool = true;

/// Start of the memory region reserved for the loaded program.
pub const OFFSET: usize = 0x200;

} // verus!
