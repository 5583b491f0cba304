use vstd::prelude::*;

verus! {

/// Size of the interpreter's memory, in bytes.
pub const RAM_SIZE_BYTES: usize = 4096;

/// Width of the display, in pixels.
pub const DISPLAY_WIDTH: usize = 64;

/// Height of the display, in pixels.
pub const DISPLAY_HEIGHT: usize = 32;

/// Number of general purpose registers (V0 to VF).
pub const REGISTER_SIZE: usize = 16;

/// Address at which programs are loaded and execution starts.
pub const PROGRAM_COUNTER_START_ADDR: u16 = 512;

/// The built-in hexadecimal font: five bytes per digit, 0 to F.
pub const SPRITES_DATA: [u8; 80] = [
    0xF0, 0x90, 0x90, 0x90, 0xF0, // 0
    0x20, 0x60, 0x20, 0x20, 0x70, // 1
    0xF0, 0x10, 0xF0, 0x80, 0xF0, // 2
    0xF0, 0x10, 0xF0, 0x10, 0xF0, // 3
    0x90, 0x90, 0xF0, 0x10, 0x10, // 4
    0xF0, 0x80, 0xF0, 0x10, 0xF0, // 5
    0xF0, 0x80, 0xF0, 0x90, 0xF0, // 6
    0xF0, 0x10, 0x20, 0x40, 0x40, // 7
    0xF0, 0x90, 0xF0, 0x90, 0xF0, // 8
    0xF0, 0x90, 0xF0, 0x10, 0xF0, // 9
    0xF0, 0x90, 0xF0, 0x90, 0x90, // A
    0xE0, 0x90, 0xE0, 0x90, 0xE0, // B
    0xF0, 0x80, 0x80, 0x80, 0xF0, // C
    0xE0, 0x90, 0x90, 0x90, 0xE0, // D
    0xF0, 0x80, 0xF0, 0x80, 0xF0, // E
    0xF0, 0x80, 0xF0, 0x80, 0x80, // F
];

} // verus!
