//! Instructions of the XO-CHIP extension.
use vstd::prelude::*;
use crate::opcode::word_of;
use crate::cpu_opcodes::{CPUOpcodes, lemma_cpu_register_count};
use crate::io_manager::{IOManager, IoState, lemma_io_sizes};

verus! {

broadcast use {lemma_cpu_register_count, lemma_io_sizes};

/// The playback rate that F_3A selects for pitch `vx`. The operator is an
/// exclusive or, as written in the interpreter.
pub open spec fn playback_rate(vx: u8) -> u16 {
    8000u16 ^ (((vx - 64) / 48) as u16)
}

/// F002: load the sixteen-bit audio pattern from I and I + 1.
pub fn inst_f002(cpu_manager: &CPUOpcodes, io_manager: &mut IOManager)
    requires
        cpu_manager@.index + 1 < 4096,
    ensures
        final(io_manager)@ == (IoState {
            audio_pattern_buffer: word_of(
                old(io_manager)@.ram[cpu_manager@.index as int],
                old(io_manager)@.ram[cpu_manager@.index + 1],
            ),
            ..old(io_manager)@
        }),
{
    let i = cpu_manager.get_index_register() as usize;
    let a = io_manager.read_ram(i);
    let b = io_manager.read_ram(i + 1);
    let first = (a as u16) << 8;
    let secnd = b as u16;
    proof {
        assert(((a as u16) << 8u16) | (b as u16) == a as u16 * 256 + b as u16) by (bit_vector);
    }
    io_manager.set_audio_pattern_buffer(first | secnd);
}

/// F_3A: the playback rate for the pitch held in VX. Playing it is left to
/// the caller.
pub fn inst_fn3a(cpu_manager: &CPUOpcodes, x: u8) -> (rate: u16)
    requires
        x < 16,
        cpu_manager@.regs[x as int] >= 64,
    ensures
        rate == playback_rate(cpu_manager@.regs[x as int]),
{
    let vx = cpu_manager.get_values_register(x as usize) as u16;
    4000 * 2 ^ ((vx - 64) / 48)
}

} // verus!
