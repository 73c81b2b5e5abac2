use vstd::prelude::*;

verus! {

/// First address of the built-in font sprites.
pub const FONT_RAM_START: usize = 0x000;
/// Height in bytes of one font glyph.
pub const FONT_HEIGHT: usize = 5;
/// One past the last address holding font data (16 glyphs of 5 bytes).
pub const FONT_RAM_END: usize = FONT_RAM_START + 16 * 5;
/// First address of the loaded program.
pub const PROGRAM_RAM_START: usize = 0x200;
/// One past the last address the loaded program may occupy.
pub const PROGRAM_RAM_END: usize = 0xe8f;
/// Total number of addressable bytes: addresses 0x000 through 0xffe.
pub const RAM_SIZE: usize = 0x0fff;
/// Largest program image accepted by the loader, in bytes.
pub const MAX_ROM_SIZE: usize = PROGRAM_RAM_END - PROGRAM_RAM_START;

/// Number of general-purpose registers V0 through VF.
pub const REGISTER_COUNT: usize = 16;
/// Index of VF, the flag register.
pub const FLAG_REGISTER: usize = 0xf;
/// Depth of the call stack.
pub const STACK_SIZE: usize = 8;
/// Mask selecting the most significant bit of a sprite byte.
pub const BIT_MASK: u8 = 0b1000_0000;

/// Width of the monochrome display in pixels.
pub const DISPLAY_WIDTH: usize = 64;
/// Height of the monochrome display in pixels.
pub const DISPLAY_HEIGHT: usize = 32;
/// Number of pixels in the frame buffer.
pub const FRAME_BUFFER_SIZE: usize = DISPLAY_WIDTH * DISPLAY_HEIGHT;
/// Width in bits of one sprite row.
pub const SPRITE_WIDTH: usize = 8;

/// Number of logical keys.
pub const KEYBOARD_SIZE: usize = 16;

} // verus!
