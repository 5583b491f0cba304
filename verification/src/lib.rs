//! A CHIP-8 interpreter core: processor state, memory, display and the
//! instruction set, with contracts over an abstract machine model.

pub mod constants;
pub mod opcode;
pub mod cpu_opcodes;
pub mod misc_cpu;
pub mod io_manager;
pub mod inputs;
pub mod xo_chip_extended;
pub mod cpu_main;
pub mod properties;
