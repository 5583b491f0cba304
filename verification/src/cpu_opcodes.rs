//! The processor: registers, program counter, call stack, and the
//! instructions that touch only them.
use vstd::prelude::*;
use crate::constants::PROGRAM_COUNTER_START_ADDR;
use crate::opcode::{op_nnn, op_nn, op_x, op_y, op_n, field_nnn, field_nn, field_x, field_y, field_n};

verus! {

/// The abstract state of the processor.
pub struct CpuState {
    /// Return addresses, the most recent last.
    pub stack: Seq<u16>,
    pub pc: u16,
    /// The address register I.
    pub index: u16,
    /// V0 to VF.
    pub regs: Seq<u8>,
    /// Whether execution waits for a key press.
    pub wait: bool,
}

/// Addition modulo 256.
pub open spec fn add8(a: u8, b: u8) -> u8 {
    ((a as int + b as int) % 256) as u8
}

/// Subtraction modulo 256.
pub open spec fn sub8(a: u8, b: u8) -> u8 {
    ((a as int - b as int + 256) % 256) as u8
}

impl CpuState {
    /// The state with the program counter set to `pc`.
    pub open spec fn with_pc(self, pc: u16) -> CpuState {
        CpuState { pc, ..self }
    }

    /// The state with the address register set to `index`.
    pub open spec fn with_index(self, index: u16) -> CpuState {
        CpuState { index, ..self }
    }

    /// The state with the wait flag set to `wait`.
    pub open spec fn with_wait(self, wait: bool) -> CpuState {
        CpuState { wait, ..self }
    }

    /// The state with register `x` set to `v`.
    pub open spec fn with_reg(self, x: int, v: u8) -> CpuState {
        CpuState { regs: self.regs.update(x, v), ..self }
    }

    /// The state past the next instruction when `cond` holds, else unchanged.
    pub open spec fn skip_if(self, cond: bool) -> CpuState {
        if cond {
            self.with_pc((self.pc + 2) as u16)
        } else {
            self
        }
    }

    /// Whether skipping past the next instruction on `cond` stays in range.
    pub open spec fn can_skip_if(self, cond: bool) -> bool {
        cond ==> self.pc + 2 <= u16::MAX
    }
}

/// The state after a call to `target`: the return address is pushed.
pub open spec fn call_effect(s: CpuState, target: u16) -> CpuState {
    (CpuState { stack: s.stack.push(s.pc), ..s }).with_pc(target)
}

/// The state after a return: the most recent return address is popped into
/// the program counter; nothing happens when the stack is empty.
pub open spec fn return_effect(s: CpuState) -> CpuState {
    if s.stack.len() == 0 {
        s
    } else {
        (CpuState { stack: s.stack.drop_last(), ..s }).with_pc(s.stack.last())
    }
}

/// CXNN with a given random byte: VX becomes the byte masked by NN.
pub open spec fn masked_random(s: CpuState, bytes: u16, random: u8) -> CpuState {
    s.with_reg(op_x(bytes), random & op_nn(bytes))
}

/// The elements `x` to `y` of a sequence; empty when `x` is past `y`.
pub open spec fn byte_range(s: Seq<u8>, x: int, y: int) -> Seq<u8> {
    if x <= y { s.subrange(x, y + 1) } else { Seq::empty() }
}

/// Whether the low nibble of an 8XY_ instruction names an operation.
pub open spec fn alu_known(bytes: u16) -> bool {
    let n = op_n(bytes);
    0 <= n <= 7 || n == 14
}

/// The effect of an 8XY_ instruction. VF is written last, so it wins when X is F.
pub open spec fn alu_effect(s: CpuState, bytes: u16) -> CpuState {
    let x = op_x(bytes);
    let vx = s.regs[x];
    let vy = s.regs[op_y(bytes)];
    let n = op_n(bytes);
    if n == 0 {
        s.with_reg(x, vy)
    } else if n == 1 {
        s.with_reg(x, vx | vy)
    } else if n == 2 {
        s.with_reg(x, vx & vy)
    } else if n == 3 {
        s.with_reg(x, vx ^ vy)
    } else if n == 4 {
        s.with_reg(x, add8(vx, vy)).with_reg(15, if vx + vy > 255 { 1u8 } else { 0u8 })
    } else if n == 5 {
        s.with_reg(x, sub8(vx, vy)).with_reg(15, if vx > vy { 1u8 } else { 0u8 })
    } else if n == 6 {
        s.with_reg(x, vy / 2).with_reg(15, vy % 2)
    } else if n == 7 {
        s.with_reg(x, sub8(vy, vx)).with_reg(15, if vy > vx { 1u8 } else { 0u8 })
    } else if n == 14 {
        s.with_reg(x, ((vy * 2) % 256) as u8).with_reg(15, if vy >= 128 { 128u8 } else { 0u8 })
    } else {
        s
    }
}

/// The processor of the interpreter.
pub struct CPUOpcodes {
    stack: Vec<u16>,
    program_counter: u16,
    index_register: u16,
    variables_register: [u8; 16],
    wait: bool,
}

impl View for CPUOpcodes {
    type V = CpuState;

    closed spec fn view(&self) -> CpuState {
        CpuState {
            stack: self.stack@,
            pc: self.program_counter,
            index: self.index_register,
            regs: self.variables_register@,
            wait: self.wait,
        }
    }
}

/// A processor always has sixteen registers.
pub broadcast proof fn lemma_cpu_register_count(cpu: &CPUOpcodes)
    ensures
        #[trigger] cpu@.regs.len() == 16,
{
}

/// The state of a processor just after power-on.
pub open spec fn initial_cpu() -> CpuState {
    CpuState {
        stack: Seq::empty(),
        pc: PROGRAM_COUNTER_START_ADDR,
        index: 0,
        regs: Seq::new(16, |i: int| 0u8),
        wait: false,
    }
}

impl CPUOpcodes {
    pub fn initialize() -> (r: CPUOpcodes)
        ensures
            r@ == initial_cpu(),
    {
        let r = CPUOpcodes {
            program_counter: PROGRAM_COUNTER_START_ADDR,
            index_register: 0,
            variables_register: [0u8; 16],
            stack: Vec::new(),
            wait: false,
        };
        assert(r@.regs =~= initial_cpu().regs);
        r
    }

    /// Registers VX to VY, for display.
    pub fn _get_register_range_array(&self, x: usize, y: usize) -> (range: Vec<u8>)
        requires
            y < usize::MAX,
            x <= y ==> y < 16,
        ensures
            x <= y ==> range@ == self@.regs.subrange(x as int, y + 1),
            x > y ==> range@.len() == 0,
            range@ == byte_range(self@.regs, x as int, y as int),
    {
        let mut range: Vec<u8> = Vec::new();
        let mut i = x;
        while i < y + 1
            invariant
                y < usize::MAX,
                x <= y ==> y < 16,
                x <= y ==> x <= i <= y + 1,
                x > y ==> i == x,
                x <= y ==> range@ == self@.regs.subrange(x as int, i as int),
                x > y ==> range@.len() == 0,
            decreases y + 1 - i,
        {
            range.push(self.variables_register[i]);
            i = i + 1;
        }
        range
    }

    pub fn set_wait_control(&mut self, state: bool)
        ensures
            final(self)@ == old(self)@.with_wait(state),
    {
        self.wait = state;
    }

    pub fn get_wait_control(&self) -> (r: bool)
        ensures
            r == self@.wait,
    {
        self.wait
    }

    pub fn set_values_register(&mut self, x: usize, var: u8)
        requires
            x < 16,
        ensures
            final(self)@ == old(self)@.with_reg(x as int, var),
    {
        self.variables_register[x] = var;
    }

    pub fn get_values_register(&self, x: usize) -> (r: u8)
        requires
            x < 16,
        ensures
            r == self@.regs[x as int],
    {
        self.variables_register[x]
    }

    pub fn set_index_register(&mut self, var: u16)
        ensures
            final(self)@ == old(self)@.with_index(var),
    {
        self.index_register = var;
    }

    pub fn get_index_register(&self) -> (r: u16)
        ensures
            r == self@.index,
    {
        self.index_register
    }

    pub fn inc_pc(&mut self)
        requires
            old(self)@.pc + 2 <= u16::MAX,
        ensures
            final(self)@ == old(self)@.with_pc((old(self)@.pc + 2) as u16),
    {
        self.program_counter = self.program_counter + 2;
    }

    pub fn set_pc(&mut self, pos: u16)
        ensures
            final(self)@ == old(self)@.with_pc(pos),
    {
        self.program_counter = pos;
    }

    pub fn get_pc(&self) -> (r: u16)
        ensures
            r == self@.pc,
    {
        self.program_counter
    }

    /// 1NNN: jump to NNN.
    pub fn inst_1nnn(&mut self, bytes: u16)
        ensures
            final(self)@ == old(self)@.with_pc(op_nnn(bytes)),
    {
        self.set_pc(field_nnn(bytes));
    }

    /// 2NNN: call the subroutine at NNN.
    pub fn inst_2nnn(&mut self, bytes: u16)
        ensures
            final(self)@ == call_effect(old(self)@, op_nnn(bytes)),
    {
        self.stack.push(self.program_counter);
        self.set_pc(field_nnn(bytes));
    }

    /// 3XNN: skip the next instruction when VX equals NN.
    pub fn inst_3xnn(&mut self, bytes: u16)
        requires
            old(self)@.can_skip_if(old(self)@.regs[op_x(bytes)] == op_nn(bytes)),
        ensures
            final(self)@ == old(self)@.skip_if(old(self)@.regs[op_x(bytes)] == op_nn(bytes)),
    {
        let x = field_x(bytes);
        let nn = field_nn(bytes);
        if self.variables_register[x] == nn {
            self.inc_pc();
        }
    }

    /// 00EE: return from a subroutine; does nothing when the stack is empty.
    pub fn inst_00ee(&mut self)
        ensures
            final(self)@ == return_effect(old(self)@),
    {
        if self.stack.len() == 0 {
            return;
        }
        let subroutine = self.stack.pop().unwrap();
        self.set_pc(subroutine);
    }

    /// 4XNN: skip the next instruction when VX differs from NN.
    pub fn inst_4xnn(&mut self, bytes: u16)
        requires
            old(self)@.can_skip_if(old(self)@.regs[op_x(bytes)] != op_nn(bytes)),
        ensures
            final(self)@ == old(self)@.skip_if(old(self)@.regs[op_x(bytes)] != op_nn(bytes)),
    {
        let x = field_x(bytes);
        let nn = field_nn(bytes);
        if self.variables_register[x] != nn {
            self.inc_pc();
        }
    }

    /// 5XY0: skip the next instruction when VX equals VY.
    pub fn inst_5xy0(&mut self, bytes: u16)
        requires
            old(self)@.can_skip_if(old(self)@.regs[op_x(bytes)] == old(self)@.regs[op_y(bytes)]),
        ensures
            final(self)@ == old(self)@.skip_if(old(self)@.regs[op_x(bytes)] == old(self)@.regs[op_y(bytes)]),
    {
        let x = field_x(bytes);
        let y = field_y(bytes);
        if self.variables_register[x] == self.variables_register[y] {
            self.inc_pc();
        }
    }

    /// 6XNN: set VX to NN.
    pub fn inst_6xnn(&mut self, bytes: u16)
        ensures
            final(self)@ == old(self)@.with_reg(op_x(bytes), op_nn(bytes)),
    {
        let x = field_x(bytes);
        let nn = field_nn(bytes);
        self.variables_register[x] = nn;
    }

    /// 7XNN: add NN to VX, modulo 256; VF is left alone.
    pub fn inst_7xnn(&mut self, bytes: u16)
        ensures
            final(self)@ == old(self)@.with_reg(op_x(bytes), add8(old(self)@.regs[op_x(bytes)], op_nn(bytes))),
    {
        let x = field_x(bytes);
        let nn = field_nn(bytes);
        let vx = self.variables_register[x];
        self.variables_register[x] = vx.wrapping_add(nn);
    }

    /// 8XY_: register to register operations. Returns whether the low nibble
    /// names an operation; when it does not, nothing changes.
    pub fn inst_8xy_x(&mut self, bytes: u16) -> (known: bool)
        ensures
            known == alu_known(bytes),
            final(self)@ == alu_effect(old(self)@, bytes),
    {
        let x = field_x(bytes);
        let y = field_y(bytes);
        let last = field_n(bytes);
        let ghost s = self@;
        if last == 0x0 {
            self.variables_register[x] = self.variables_register[y];
        } else if last == 0x1 {
            self.variables_register[x] = self.variables_register[x] | self.variables_register[y];
        } else if last == 0x2 {
            self.variables_register[x] = self.variables_register[x] & self.variables_register[y];
        } else if last == 0x3 {
            self.variables_register[x] = self.variables_register[x] ^ self.variables_register[y];
        } else if last == 0x4 {
            let vx = self.variables_register[x];
            let vy = self.variables_register[y];
            self.variables_register[x] = vx.wrapping_add(vy);
            if vx as u16 + vy as u16 > 0xff {
                self.variables_register[15] = 1;
            } else {
                self.variables_register[15] = 0;
            }
        } else if last == 0x5 {
            let vx = self.variables_register[x];
            let vy = self.variables_register[y];
            self.variables_register[x] = vx.wrapping_sub(vy);
            if vx > vy {
                self.variables_register[15] = 1;
            } else {
                self.variables_register[15] = 0;
            }
        } else if last == 0x6 {
            self.variables_register[x] = self.variables_register[y];
            let flag = self.variables_register[x] & 0x1;
            let shifted = self.variables_register[x] >> 1;
            proof {
                let v = s.regs[op_y(bytes)];
                assert(v & 1u8 == v % 2) by (bit_vector);
                assert(v >> 1u8 == v / 2) by (bit_vector);
            }
            self.variables_register[x] = shifted;
            self.variables_register[15] = flag;
        } else if last == 0x7 {
            let vx = self.variables_register[x];
            let vy = self.variables_register[y];
            self.variables_register[x] = vy.wrapping_sub(vx);
            if vy > vx {
                self.variables_register[15] = 1;
            } else {
                self.variables_register[15] = 0;
            }
        } else if last == 0xe {
            self.variables_register[x] = self.variables_register[y];
            let flag = self.variables_register[x] & 0x80;
            let shifted = self.variables_register[x] << 1;
            proof {
                let v = s.regs[op_y(bytes)];
                assert(v & 0x80u8 == if v >= 128 { 128u8 } else { 0u8 }) by (bit_vector);
                assert(v << 1u8 == (v * 2) % 256) by (bit_vector);
            }
            self.variables_register[x] = shifted;
            self.variables_register[15] = flag;
        } else {
            assert(self@ =~= alu_effect(s, bytes));
            return false;
        }
        assert(self@.regs =~= alu_effect(s, bytes).regs);
        true
    }

    /// 9XY0: skip the next instruction when VX differs from VY.
    pub fn inst_9xy0(&mut self, bytes: u16)
        requires
            old(self)@.can_skip_if(old(self)@.regs[op_x(bytes)] != old(self)@.regs[op_y(bytes)]),
        ensures
            final(self)@ == old(self)@.skip_if(old(self)@.regs[op_x(bytes)] != old(self)@.regs[op_y(bytes)]),
    {
        let x = field_x(bytes);
        let y = field_y(bytes);
        if self.variables_register[x] != self.variables_register[y] {
            self.inc_pc();
        }
    }

    /// ANNN: set the address register to NNN.
    pub fn inst_annn(&mut self, bytes: u16)
        ensures
            final(self)@ == old(self)@.with_index(op_nnn(bytes)),
    {
        let nnn = field_nnn(bytes);
        self.index_register = nnn;
    }

    /// CXNN with a given random byte: set VX to `random & NN`.
    pub fn inst_cxnn_with(&mut self, bytes: u16, random: u8)
        ensures
            final(self)@ == masked_random(old(self)@, bytes, random),
    {
        let x = field_x(bytes);
        self.variables_register[x] = random & field_nn(bytes);
    }

    /// CXNN: set VX to a random byte masked by NN.
    pub fn inst_cxnn(&mut self, bytes: u16)
        ensures
            exists|r: u8| final(self)@ == masked_random(old(self)@, bytes, r),
    {
        let random = random_byte();
        self.inst_cxnn_with(bytes, random);
    }
}

/// Calls `rand::random::<u8>()`, which draws a byte from the thread's
/// generator. Any byte may come back: nothing is claimed of it.
#[verifier::external_body]
fn random_byte() -> u8 {
    rand::random::<u8>()
}

} // verus!
