//! An earlier form of the processor, whose instructions take their operands
//! as bytes already split out of the instruction word.
use vstd::prelude::*;
use crate::constants::PROGRAM_COUNTER_START_ADDR;
use crate::opcode::{word_of, join_bytes};
use crate::cpu_opcodes::{add8, sub8};

verus! {

/// The abstract state of a [`MiscCPU`].
pub struct MiscState {
    pub stack: Seq<u16>,
    pub stack_pointer: u16,
    pub pc: u16,
    pub index: u16,
    pub regs: Seq<u8>,
}

impl MiscState {
    pub open spec fn with_pc(self, pc: u16) -> MiscState {
        MiscState { pc, ..self }
    }

    pub open spec fn with_index(self, index: u16) -> MiscState {
        MiscState { index, ..self }
    }

    pub open spec fn with_reg(self, x: int, v: u8) -> MiscState {
        MiscState { regs: self.regs.update(x, v), ..self }
    }

    pub open spec fn skip_if(self, cond: bool) -> MiscState {
        if cond {
            self.with_pc((self.pc + 2) as u16)
        } else {
            self
        }
    }

    pub open spec fn can_skip_if(self, cond: bool) -> bool {
        cond ==> self.pc + 2 <= u16::MAX
    }
}

/// A call to the address in `nnn`: the return address is pushed and the
/// stack pointer counts up.
pub open spec fn misc_call(s: MiscState, nnn: Seq<u8>) -> MiscState {
    (MiscState { stack: s.stack.push(s.pc), stack_pointer: (s.stack_pointer + 1) as u16, ..s }).with_pc(
        address_of(nnn),
    )
}

/// A return: the most recent return address is popped into the program counter.
pub open spec fn misc_return(s: MiscState) -> MiscState {
    (MiscState { stack: s.stack.drop_last(), ..s }).with_pc(s.stack.last())
}

/// 3XNN: past the next instruction when VX equals NN.
pub open spec fn misc_skip_eq_imm(s: MiscState, x: int, nn: u8) -> MiscState {
    s.skip_if(s.regs[x] == nn)
}

/// 4XNN: past the next instruction when VX differs from NN.
pub open spec fn misc_skip_ne_imm(s: MiscState, x: int, nn: u8) -> MiscState {
    s.skip_if(s.regs[x] != nn)
}

/// 5XY0: past the next instruction when VX equals VY.
pub open spec fn misc_skip_eq_regs(s: MiscState, bytes: Seq<u8>) -> MiscState {
    s.skip_if(s.regs[(bytes[0] % 16) as int] == s.regs[(bytes[1] / 16) as int])
}

/// 9XY0: past the next instruction when VX differs from VY.
pub open spec fn misc_skip_ne_regs(s: MiscState, bytes: Seq<u8>) -> MiscState {
    s.skip_if(s.regs[(bytes[0] % 16) as int] != s.regs[(bytes[1] / 16) as int])
}

/// 7XNN on the earlier processor: the sum cut to a byte, then modulo 255.
pub open spec fn misc_add_imm(s: MiscState, x: int, nn: u8) -> MiscState {
    s.with_reg(x, (add8(s.regs[x], nn) % 255) as u8)
}

/// The address held in the low twelve bits of two instruction bytes.
pub open spec fn address_of(bytes: Seq<u8>) -> u16 {
    word_of(bytes[0] % 16, bytes[1])
}

/// Whether the low nibble of an 8XY_ instruction names an operation.
pub open spec fn misc_alu_known(bytes: Seq<u8>) -> bool {
    let n = bytes[1] % 16;
    n <= 7 || n == 14
}

/// The effect of an 8XY_ instruction on a [`MiscCPU`]. Here VF is written
/// before VX in additions and subtractions, and shifts leave VF alone.
pub open spec fn misc_alu_effect(s: MiscState, bytes: Seq<u8>) -> MiscState {
    let x = (bytes[0] % 16) as int;
    let vx = s.regs[x];
    let vy = s.regs[(bytes[1] / 16) as int];
    let n = bytes[1] % 16;
    if n == 0 {
        s.with_reg(x, vy)
    } else if n == 1 {
        s.with_reg(x, vx | vy)
    } else if n == 2 {
        s.with_reg(x, vx & vy)
    } else if n == 3 {
        s.with_reg(x, vx ^ vy)
    } else if n == 4 {
        s.with_reg(15, if vx + vy > 255 { 1u8 } else { 0u8 }).with_reg(x, add8(vx, vy))
    } else if n == 5 {
        s.with_reg(15, if vx > vy { 1u8 } else { 0u8 }).with_reg(x, sub8(vx, vy))
    } else if n == 6 {
        s.with_reg(x, vy / 2)
    } else if n == 7 {
        s.with_reg(15, if vx < vy { 1u8 } else { 0u8 }).with_reg(x, sub8(vy, vx))
    } else if n == 14 {
        s.with_reg(x, ((vy * 2) % 256) as u8)
    } else {
        s
    }
}

/// The processor, in its earlier form.
pub struct MiscCPU {
    stack: Vec<u16>,
    stack_pointer: u16,
    program_counter: u16,
    index_register: u16,
    variables_register: [u8; 16],
}

impl View for MiscCPU {
    type V = MiscState;

    closed spec fn view(&self) -> MiscState {
        MiscState {
            stack: self.stack@,
            stack_pointer: self.stack_pointer,
            pc: self.program_counter,
            index: self.index_register,
            regs: self.variables_register@,
        }
    }
}

/// A processor always has sixteen registers.
pub broadcast proof fn lemma_misc_register_count(cpu: &MiscCPU)
    ensures
        #[trigger] cpu@.regs.len() == 16,
{
}

/// The state of a [`MiscCPU`] just after power-on.
pub open spec fn initial_misc() -> MiscState {
    MiscState {
        stack: Seq::empty(),
        stack_pointer: 0,
        pc: PROGRAM_COUNTER_START_ADDR,
        index: 0,
        regs: Seq::new(16, |i: int| 0u8),
    }
}

impl MiscCPU {
    pub fn initialize() -> (r: MiscCPU)
        ensures
            r@ == initial_misc(),
    {
        let r = MiscCPU {
            program_counter: PROGRAM_COUNTER_START_ADDR,
            index_register: 0,
            variables_register: [0u8; 16],
            stack: Vec::new(),
            stack_pointer: 0,
        };
        assert(r@.regs =~= initial_misc().regs);
        r
    }

    pub fn set_values_register(&mut self, x: usize, var: u8)
        requires
            x < 16,
        ensures
            final(self)@ == old(self)@.with_reg(x as int, var),
    {
        self.variables_register[x] = var;
    }

    pub fn get_values_register(&self, x: usize) -> (r: u8)
        requires
            x < 16,
        ensures
            r == self@.regs[x as int],
    {
        self.variables_register[x]
    }

    pub fn set_index_register(&mut self, var: u16)
        ensures
            final(self)@ == old(self)@.with_index(var),
    {
        self.index_register = var;
    }

    pub fn get_index_register(&self) -> (r: u16)
        ensures
            r == self@.index,
    {
        self.index_register
    }

    /// Jump to the address in the low twelve bits of `bytes`.
    pub fn jump(&mut self, bytes: [u8; 2])
        ensures
            final(self)@ == old(self)@.with_pc(address_of(bytes@)),
    {
        self.set_pc(join_bytes(bytes[0] & 0x0f, bytes[1]));
        proof {
            let b = bytes@[0];
            assert(b & 0x0fu8 == b % 16) by (bit_vector);
        }
    }

    pub fn inc_pc(&mut self)
        requires
            old(self)@.pc + 2 <= u16::MAX,
        ensures
            final(self)@ == old(self)@.with_pc((old(self)@.pc + 2) as u16),
    {
        self.program_counter = self.program_counter + 2;
    }

    pub fn set_pc(&mut self, pos: u16)
        ensures
            final(self)@ == old(self)@.with_pc(pos),
    {
        self.program_counter = pos;
    }

    pub fn get_pc(&self) -> (r: u16)
        ensures
            r == self@.pc,
    {
        self.program_counter
    }

    /// Skip the next instruction when VX equals NN.
    pub fn inst_3xnn(&mut self, x: u8, nn: u8)
        requires
            x < 16,
            old(self)@.can_skip_if(old(self)@.regs[x as int] == nn),
        ensures
            final(self)@ == misc_skip_eq_imm(old(self)@, x as int, nn),
    {
        if self.variables_register[x as usize] == nn {
            self.inc_pc();
        }
    }

    /// Call the subroutine at the address in the low twelve bits of `nnn`.
    pub fn inst_2nnn(&mut self, nnn: [u8; 2])
        requires
            old(self)@.stack_pointer < u16::MAX,
        ensures
            final(self)@ == misc_call(old(self)@, nnn@),
    {
        self.stack_pointer = self.stack_pointer + 1;
        let target = join_bytes(nnn[0] & 0x0f, nnn[1]);
        proof {
            let b = nnn@[0];
            assert(b & 0x0fu8 == b % 16) by (bit_vector);
        }
        self.stack.push(self.program_counter);
        self.set_pc(target);
    }

    /// Return from a subroutine.
    pub fn inst_00ee(&mut self)
        requires
            old(self)@.stack.len() > 0,
        ensures
            final(self)@ == misc_return(old(self)@),
    {
        let subroutine = self.stack.pop().unwrap();
        self.set_pc(subroutine);
    }

    /// Skip the next instruction when VX differs from NN.
    pub fn inst_4xnn(&mut self, x: u8, nn: u8)
        requires
            x < 16,
            old(self)@.can_skip_if(old(self)@.regs[x as int] != nn),
        ensures
            final(self)@ == misc_skip_ne_imm(old(self)@, x as int, nn),
    {
        if self.variables_register[x as usize] != nn {
            self.inc_pc();
        }
    }

    /// Skip the next instruction when VX equals VY.
    pub fn inst_5xy0(&mut self, bytes: [u8; 2])
        requires
            old(self)@.can_skip_if(
                old(self)@.regs[(bytes@[0] % 16) as int] == old(self)@.regs[(bytes@[1] / 16) as int],
            ),
        ensures
            final(self)@ == misc_skip_eq_regs(old(self)@, bytes@),
    {
        let x = bytes[0] & 0x0f;
        let y = (bytes[1] & 0xf0) >> 4;
        proof {
            let b0 = bytes@[0];
            let b1 = bytes@[1];
            assert(b0 & 0x0fu8 == b0 % 16) by (bit_vector);
            assert((b1 & 0xf0u8) >> 4u8 == b1 / 16) by (bit_vector);
        }
        if self.variables_register[x as usize] == self.variables_register[y as usize] {
            self.inc_pc();
        }
    }

    /// Set VX to NN.
    pub fn set_value_register_vx_6xnn(&mut self, x: u8, nn: u8)
        requires
            x < 16,
        ensures
            final(self)@ == old(self)@.with_reg(x as int, nn),
    {
        self.variables_register[x as usize] = nn;
    }

    /// Add NN to VX: the sum is cut to a byte, then taken modulo 255.
    pub fn add_value_register_vx_7xnn(&mut self, x: u8, nn: u8)
        requires
            x < 16,
        ensures
            final(self)@ == misc_add_imm(old(self)@, x as int, nn),
    {
        let var = self.variables_register[x as usize];
        let wide: u16 = var as u16 + nn as u16;
        let sum = wide as u8;
        proof {
            assert(wide as u8 == wide % 256) by (bit_vector);
        }
        self.variables_register[x as usize] = sum % 255;
    }

    /// Register to register operations. Returns whether the low nibble names
    /// an operation; when it does not, nothing changes.
    pub fn inst_8xy_x(&mut self, bytes: [u8; 2]) -> (known: bool)
        ensures
            known == misc_alu_known(bytes@),
            final(self)@ == misc_alu_effect(old(self)@, bytes@),
    {
        let x = (bytes[0] & 0x0f) as usize;
        let y = ((bytes[1] & 0xf0) >> 4) as usize;
        let last = bytes[1] & 0x0f;
        proof {
            let b0 = bytes@[0];
            let b1 = bytes@[1];
            assert(b0 & 0x0fu8 == b0 % 16) by (bit_vector);
            assert((b1 & 0xf0u8) >> 4u8 == b1 / 16) by (bit_vector);
            assert(b1 & 0x0fu8 == b1 % 16) by (bit_vector);
        }
        let ghost s = self@;
        if last == 0x0 {
            self.variables_register[x] = self.variables_register[y];
        } else if last == 0x1 {
            self.variables_register[x] = self.variables_register[x] | self.variables_register[y];
        } else if last == 0x2 {
            self.variables_register[x] = self.variables_register[x] & self.variables_register[y];
        } else if last == 0x3 {
            self.variables_register[x] = self.variables_register[x] ^ self.variables_register[y];
        } else if last == 0x4 {
            let add = self.variables_register[x] as u16 + self.variables_register[y] as u16;
            self.variables_register[15] = 0;
            if add > 0xff {
                self.variables_register[15] = 1;
            }
            proof {
                assert(add as u8 == add % 256) by (bit_vector);
            }
            self.variables_register[x] = add as u8;
        } else if last == 0x5 {
            let vx = self.variables_register[x];
            let vy = self.variables_register[y];
            self.variables_register[15] = 0;
            if vx > vy {
                self.variables_register[15] = 1;
            }
            self.variables_register[x] = vx.wrapping_sub(vy);
        } else if last == 0x6 {
            let vy = self.variables_register[y];
            proof {
                assert(vy >> 1u8 == vy / 2) by (bit_vector);
            }
            self.set_value_register_vx_6xnn(x as u8, vy >> 1);
        } else if last == 0x7 {
            let vx = self.variables_register[x];
            let vy = self.variables_register[y];
            self.variables_register[15] = 0;
            if vx < vy {
                self.variables_register[15] = 1;
            }
            self.variables_register[x] = vy.wrapping_sub(vx);
        } else if last == 0xe {
            let vy = self.variables_register[y];
            proof {
                assert(vy << 1u8 == (vy * 2) % 256) by (bit_vector);
            }
            self.set_value_register_vx_6xnn(x as u8, vy << 1);
        } else {
            assert(self@ =~= misc_alu_effect(s, bytes@));
            return false;
        }
        assert(self@.regs =~= misc_alu_effect(s, bytes@).regs);
        true
    }

    /// Skip the next instruction when VX differs from VY.
    pub fn inst_9xy0(&mut self, bytes: [u8; 2])
        requires
            old(self)@.can_skip_if(
                old(self)@.regs[(bytes@[0] % 16) as int] != old(self)@.regs[(bytes@[1] / 16) as int],
            ),
        ensures
            final(self)@ == misc_skip_ne_regs(old(self)@, bytes@),
    {
        let x = bytes[0] & 0x0f;
        let y = (bytes[1] & 0xf0) >> 4;
        proof {
            let b0 = bytes@[0];
            let b1 = bytes@[1];
            assert(b0 & 0x0fu8 == b0 % 16) by (bit_vector);
            assert((b1 & 0xf0u8) >> 4u8 == b1 / 16) by (bit_vector);
        }
        if self.variables_register[x as usize] != self.variables_register[y as usize] {
            self.inc_pc();
        }
    }

    /// Set the address register to the low twelve bits of `bytes`.
    pub fn set_index_register_annn(&mut self, bytes: [u8; 2])
        ensures
            final(self)@ == old(self)@.with_index(address_of(bytes@)),
    {
        let shifted = ((bytes[0] as u16) & 0x0f) << 8;
        proof {
            let b0 = bytes@[0];
            let b1 = bytes@[1];
            assert((((b0 as u16) & 0x0fu16) << 8u16) | (b1 as u16) == (b0 % 16) as u16 * 256 + b1 as u16)
                by (bit_vector);
        }
        self.index_register = shifted | bytes[1] as u16;
    }
}

} // verus!
