//! Loading a program and the fetch, decode and execute cycle.
use vstd::prelude::*;
use crate::opcode::{op_x, op_y, op_nn, op_nnn, op_n, op_family, word_of, field_family, field_nn, field_x, field_y, field_n, join_bytes};
use crate::cpu_opcodes::{CPUOpcodes, CpuState, add8, alu_effect, alu_known, call_effect, return_effect, lemma_cpu_register_count};
use crate::io_manager::{IOManager, IoState, FxOutcome, dark_vga, display_effect, display_ok, fx_effect, fx_ok, fx_outcome, key_effect, key_known, key_ok, key_skip, lemma_io_sizes};

verus! {

broadcast use {lemma_cpu_register_count, lemma_io_sizes};

/// What one instruction asks of the caller, which owns the screen, the
/// speaker and the console.
#[derive(Clone, Copy, Debug, PartialEq, Eq, Structural)]
pub enum Step {
    /// Nothing beyond presenting the screen.
    Continue,
    /// 00E0: the display was cleared; clear the screen.
    ClearScreen,
    /// DXYN: the display changed; draw it.
    Draw,
    /// F_3A: change the sound's playback rate.
    ChangeFrequency { rate: u16, pitch: u8 },
    /// The zero word was read: report the read error and stop.
    Halt,
    /// A 0___ instruction that names nothing; it holds the whole word.
    UnknownSystem(u16),
    /// An 8XY_ instruction that names nothing; it holds the low nibble.
    UnknownArithmetic(u16),
    /// An EX__ instruction that names nothing; it holds the whole word.
    UnknownKey(u16),
    /// An FX__ instruction that names nothing; it holds the whole word.
    UnknownMisc(u16),
    /// An instruction family that is not interpreted; it holds the family.
    UnknownFamily(u16),
    /// The instruction would leave memory or byte arithmetic; nothing was
    /// changed by it.
    Fault,
}

/// Memory after a program image is loaded at 0x200: memory from 0x200 to the
/// end holds the image, cut at the end of memory and padded with zeros.
pub open spec fn loaded_ram(ram: Seq<u8>, rom: Seq<u8>) -> Seq<u8> {
    Seq::new(
        ram.len(),
        |j: int|
            if 512 <= j < 4096 {
                if j - 512 < rom.len() { rom[j - 512] } else { 0u8 }
            } else {
                ram[j]
            },
    )
}

/// Loads a program image at 0x200.
pub fn load_program(io_manager: &mut IOManager, rom: &[u8])
    ensures
        final(io_manager)@ == old(io_manager)@.with_ram(loaded_ram(old(io_manager)@.ram, rom@)),
{
    let ghost io0 = io_manager@;
    let mut i: u16 = 0x200;
    while i < 0xfff
        invariant
            512 <= i <= 4096,
            i % 2 == 0,
            io0.ram.len() == 4096,
            io_manager@ == io0.with_ram(io_manager@.ram),
            io_manager@.ram.len() == 4096,
            forall|j: int| 0 <= j < 4096 ==> #[trigger] io_manager@.ram[j] == (if 512 <= j < i {
                if j - 512 < rom@.len() { rom@[j - 512] } else { 0u8 }
            } else {
                io0.ram[j]
            }),
        decreases 4096 - i,
    {
        let off = (i - 512) as usize;
        let first = if off < rom.len() { rom[off] } else { 0 };
        let second = if off + 1 < rom.len() { rom[off + 1] } else { 0 };
        io_manager.put_into_ram([first, second], i);
        i = i + 2;
    }
    assert(io_manager@.ram =~= loaded_ram(io0.ram, rom@));
}

/// Whether a word is the zero word, which signals a read error.
pub fn check_error(bytes: u16) -> (halt: bool)
    ensures
        halt == (bytes == 0),
{
    bytes == 0
}

/// The word at the program counter; zero past the end of memory.
pub open spec fn word_at(io: IoState, pc: u16) -> u16 {
    if pc >= 4096 { 0u16 } else { word_of(io.ram[pc as int], io.ram[pc + 1]) }
}

/// Whether fetching at the program counter stays inside memory and inside
/// sixteen-bit arithmetic.
pub open spec fn fetch_ok(cpu: CpuState) -> bool {
    cpu.pc != 4095 && cpu.pc + 2 <= u16::MAX
}

/// Reads the instruction at the program counter and moves past it.
pub fn fetch(io_manager: &mut IOManager, cpu_manager: &mut CPUOpcodes) -> (word: u16)
    requires
        fetch_ok(old(cpu_manager)@),
    ensures
        word == word_at(old(io_manager)@, old(cpu_manager)@.pc),
        final(cpu_manager)@ == old(cpu_manager)@.with_pc((old(cpu_manager)@.pc + 2) as u16),
        final(io_manager)@ == old(io_manager)@,
{
    let bytes = io_manager.get_from_ram(cpu_manager.get_pc());
    let word = join_bytes(bytes[0], bytes[1]);
    cpu_manager.inc_pc();
    word
}

/// Whether the instruction can be carried out without leaving memory or byte
/// arithmetic.
pub open spec fn decode_ok(cpu: CpuState, io: IoState, bytes: u16, keys: Seq<bool>) -> bool {
    let f = op_family(bytes);
    let vx = cpu.regs[op_x(bytes)];
    let vy = cpu.regs[op_y(bytes)];
    if f == 3 {
        cpu.can_skip_if(vx == op_nn(bytes))
    } else if f == 4 {
        cpu.can_skip_if(vx != op_nn(bytes))
    } else if f == 5 {
        cpu.can_skip_if(vx == vy)
    } else if f == 9 {
        cpu.can_skip_if(vx != vy)
    } else if f == 13 {
        display_ok(cpu, io, bytes)
    } else if f == 14 {
        key_ok(cpu, bytes, keys)
    } else if f == 15 {
        fx_ok(cpu, io, bytes)
    } else {
        true
    }
}

/// The effect of one instruction on the processor and on memory and display.
pub open spec fn decode_effect(cpu: CpuState, io: IoState, bytes: u16, keys: Seq<bool>) -> (CpuState, IoState) {
    let f = op_family(bytes);
    let x = op_x(bytes);
    let vx = cpu.regs[x];
    let vy = cpu.regs[op_y(bytes)];
    if f == 0 {
        if op_nn(bytes) == 0xe0 {
            (cpu, io.with_vga(dark_vga()))
        } else if op_nn(bytes) == 0xee {
            (return_effect(cpu), io)
        } else {
            (cpu, io)
        }
    } else if f == 1 {
        (cpu.with_pc(op_nnn(bytes)), io)
    } else if f == 2 {
        (call_effect(cpu, op_nnn(bytes)), io)
    } else if f == 3 {
        (cpu.skip_if(vx == op_nn(bytes)), io)
    } else if f == 4 {
        (cpu.skip_if(vx != op_nn(bytes)), io)
    } else if f == 5 {
        (cpu.skip_if(vx == vy), io)
    } else if f == 6 {
        (cpu.with_reg(x, op_nn(bytes)), io)
    } else if f == 7 {
        (cpu.with_reg(x, add8(vx, op_nn(bytes))), io)
    } else if f == 8 {
        (alu_effect(cpu, bytes), io)
    } else if f == 9 {
        (cpu.skip_if(vx != vy), io)
    } else if f == 10 {
        (cpu.with_index(op_nnn(bytes)), io)
    } else if f == 13 {
        display_effect(cpu, io, bytes)
    } else if f == 14 {
        (key_effect(cpu, bytes, keys), io)
    } else if f == 15 {
        fx_effect(cpu, io, bytes, keys)
    } else {
        (cpu, io)
    }
}

/// What one instruction asks of the caller.
pub open spec fn decode_outcome(cpu: CpuState, bytes: u16) -> Step {
    let f = op_family(bytes);
    if f == 0 {
        if op_nn(bytes) == 0 {
            if bytes == 0 { Step::Halt } else { Step::Continue }
        } else if op_nn(bytes) == 0xe0 {
            Step::ClearScreen
        } else if op_nn(bytes) == 0xee {
            Step::Continue
        } else {
            Step::UnknownSystem(bytes)
        }
    } else if f == 8 {
        if alu_known(bytes) { Step::Continue } else { Step::UnknownArithmetic(op_n(bytes) as u16) }
    } else if f == 13 {
        Step::Draw
    } else if f == 14 {
        if key_known(bytes) { Step::Continue } else { Step::UnknownKey(bytes) }
    } else if f == 15 {
        match fx_outcome(cpu, bytes) {
            FxOutcome::Done => Step::Continue,
            FxOutcome::ChangeFrequency { rate, pitch } => Step::ChangeFrequency { rate, pitch },
            FxOutcome::Unknown => Step::UnknownMisc(bytes),
        }
    } else if f == 11 || f == 12 {
        Step::UnknownFamily(f as u16)
    } else {
        Step::Continue
    }
}

/// Carries out one instruction. `keys` are the keypad's keys held down.
/// Returns [`Step::Fault`], changing nothing, exactly when the instruction
/// would leave memory or byte arithmetic.
pub fn decode(bytes: u16, io_manager: &mut IOManager, cpu_manager: &mut CPUOpcodes, keys: &[bool; 16]) -> (r: Step)
    ensures
        decode_ok(old(cpu_manager)@, old(io_manager)@, bytes, keys@) ==> {
            &&& r == decode_outcome(old(cpu_manager)@, bytes)
            &&& (final(cpu_manager)@, final(io_manager)@) == decode_effect(old(cpu_manager)@, old(io_manager)@, bytes, keys@)
        },
        !decode_ok(old(cpu_manager)@, old(io_manager)@, bytes, keys@) ==> {
            &&& r == Step::Fault
            &&& final(cpu_manager)@ == old(cpu_manager)@
            &&& final(io_manager)@ == old(io_manager)@
        },
{
    let half_byte = field_family(bytes);
    let x = field_x(bytes);
    let vx = cpu_manager.get_values_register(x);
    let vy = cpu_manager.get_values_register(field_y(bytes));
    let nn = field_nn(bytes);
    let room = cpu_manager.get_pc() <= 0xfffd;
    if half_byte == 0x1 {
        cpu_manager.inst_1nnn(bytes);
        Step::Continue
    } else if half_byte == 0x2 {
        cpu_manager.inst_2nnn(bytes);
        Step::Continue
    } else if half_byte == 0x3 {
        if vx == nn && !room {
            return Step::Fault;
        }
        cpu_manager.inst_3xnn(bytes);
        Step::Continue
    } else if half_byte == 0x4 {
        if vx != nn && !room {
            return Step::Fault;
        }
        cpu_manager.inst_4xnn(bytes);
        Step::Continue
    } else if half_byte == 0x5 {
        if vx == vy && !room {
            return Step::Fault;
        }
        cpu_manager.inst_5xy0(bytes);
        Step::Continue
    } else if half_byte == 0x6 {
        cpu_manager.inst_6xnn(bytes);
        Step::Continue
    } else if half_byte == 0x7 {
        cpu_manager.inst_7xnn(bytes);
        Step::Continue
    } else if half_byte == 0x8 {
        if cpu_manager.inst_8xy_x(bytes) {
            Step::Continue
        } else {
            Step::UnknownArithmetic(field_n(bytes))
        }
    } else if half_byte == 0x9 {
        if vx != vy && !room {
            return Step::Fault;
        }
        cpu_manager.inst_9xy0(bytes);
        Step::Continue
    } else if half_byte == 0xa {
        cpu_manager.inst_annn(bytes);
        Step::Continue
    } else if half_byte == 0xd {
        if !io_manager.display_allowed(bytes, cpu_manager) {
            return Step::Fault;
        }
        io_manager.display(bytes, cpu_manager);
        Step::Draw
    } else if half_byte == 0xe {
        if nn == 0x9e || nn == 0xa1 {
            if vx >= 16 {
                return Step::Fault;
            }
            let pressed = keys[vx as usize];
            let skip = if nn == 0x9e { pressed } else { !pressed };
            if skip && !room {
                return Step::Fault;
            }
        }
        if io_manager.ex_skip_key(bytes, cpu_manager, keys) {
            Step::Continue
        } else {
            Step::UnknownKey(bytes)
        }
    } else if half_byte == 0xf {
        let index = cpu_manager.get_index_register();
        if (nn == 0x02 && index >= 4095) || (nn == 0x3a && vx < 64) || (nn == 0x33 && index >= 4094)
            || ((nn == 0x55 || nn == 0x65) && index as usize + x >= 4096) {
            return Step::Fault;
        }
        match io_manager.inst_fx_xx(cpu_manager, bytes, keys) {
            FxOutcome::Done => Step::Continue,
            FxOutcome::ChangeFrequency { rate, pitch } => Step::ChangeFrequency { rate, pitch },
            FxOutcome::Unknown => Step::UnknownMisc(bytes),
        }
    } else if half_byte == 0x0 {
        if nn == 0x0 {
            if check_error(bytes) {
                Step::Halt
            } else {
                Step::Continue
            }
        } else if nn == 0xe0 {
            io_manager.clear_screen();
            Step::ClearScreen
        } else if nn == 0xee {
            cpu_manager.inst_00ee();
            Step::Continue
        } else {
            Step::UnknownSystem(bytes)
        }
    } else {
        Step::UnknownFamily(half_byte)
    }
}

/// The state and word after the fetch half of a cycle: the processor fetches
/// when it is not waiting for a key; while it waits, the delay timer counts
/// down and the last word is kept.
pub open spec fn fetch_phase(cpu: CpuState, io: IoState, word: u16) -> (CpuState, IoState, u16) {
    if !cpu.wait {
        (cpu.with_pc((cpu.pc + 2) as u16), io, word_at(io, cpu.pc))
    } else {
        (cpu, io.with_delay(if io.delay_timer > 0 { (io.delay_timer - 1) as u8 } else { 0u8 }), word)
    }
}

/// One cycle of the interpreter: fetch (or, while waiting for a key, count
/// the delay timer down), then carry out the word in `word`. `keys` are the
/// keypad's keys held down. A fetch that would leave memory or sixteen-bit
/// arithmetic gives [`Step::Fault`] and changes nothing.
pub fn cycle(io_manager: &mut IOManager, cpu_manager: &mut CPUOpcodes, word: &mut u16, keys: &[bool; 16]) -> (r: Step)
    ensures
        !old(cpu_manager)@.wait && !fetch_ok(old(cpu_manager)@) ==> {
            &&& r == Step::Fault
            &&& final(cpu_manager)@ == old(cpu_manager)@
            &&& final(io_manager)@ == old(io_manager)@
            &&& *final(word) == *old(word)
        },
        old(cpu_manager)@.wait || fetch_ok(old(cpu_manager)@) ==> {
            let mid = fetch_phase(old(cpu_manager)@, old(io_manager)@, *old(word));
            &&& *final(word) == mid.2
            &&& decode_ok(mid.0, mid.1, mid.2, keys@) ==> r == decode_outcome(mid.0, mid.2)
                && (final(cpu_manager)@, final(io_manager)@) == decode_effect(mid.0, mid.1, mid.2, keys@)
            &&& !decode_ok(mid.0, mid.1, mid.2, keys@) ==> r == Step::Fault
                && final(cpu_manager)@ == mid.0 && final(io_manager)@ == mid.1
        },
{
    if !cpu_manager.get_wait_control() {
        let pc = cpu_manager.get_pc();
        if pc == 4095 || pc > 0xfffd {
            return Step::Fault;
        }
        *word = fetch(io_manager, cpu_manager);
    } else {
        io_manager.dec_delay_timer();
    }
    decode(*word, io_manager, cpu_manager, keys)
}

} // verus!
