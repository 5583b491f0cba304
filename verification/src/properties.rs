//! Properties of the instruction set that span instructions.
use vstd::prelude::*;
use crate::constants::SPRITES_DATA;
use crate::opcode::{op_x, op_y, op_n, op_nn};
use crate::cpu_opcodes::{CpuState, add8, sub8, alu_effect, call_effect, return_effect, masked_random, byte_range, initial_cpu};
use crate::opcode::{op_family, op_nnn, word_of};
use crate::misc_cpu::{MiscState, misc_alu_effect, address_of, misc_call, misc_return, misc_skip_eq_imm, misc_skip_ne_imm, misc_skip_eq_regs, misc_skip_ne_regs, misc_add_imm, initial_misc};
use crate::inputs::{quit_requested, key_in_state};
use crate::io_manager::{IoState, sound_tick, FxOutcome, fx_ok, fx_outcome, key_effect, key_ok, bcd_ram, collides, covers, hits, dark_vga, display_effect, display_ok, line_ok, draw_vga, fx_effect, initial_io, load_regs, pixel_index, sprite_bit, store_ram, lemma_pixel_injective};
use vstd::arithmetic::power2::{pow2, lemma2_to64};
use crate::cpu_main::{Step, fetch_phase, fetch_ok, decode_effect, decode_outcome, decode_ok, loaded_ram};

verus! {

/// Drawing the same sprite twice at the same place gives back the display
/// it was drawn on.
pub proof fn lemma_draw_twice_restores(vga: Seq<bool>, ram: Seq<u8>, index: u16, vx: u8, vy: u8, n: int)
    requires
        vga.len() == 2048,
    ensures
        draw_vga(draw_vga(vga, ram, index, vx, vy, n), ram, index, vx, vy, n) == vga,
{
    assert(draw_vga(draw_vga(vga, ram, index, vx, vy, n), ram, index, vx, vy, n) =~= vga);
}

/// Carrying out DXYN twice, with neither X nor Y naming VF, gives back
/// memory, display and timers as they were.
pub proof fn lemma_display_twice_restores(cpu: CpuState, io: IoState, bytes: u16)
    requires
        cpu.regs.len() == 16,
        io.vga.len() == 2048,
        op_x(bytes) != 15,
        op_y(bytes) != 15,
    ensures
        display_effect(display_effect(cpu, io, bytes).0, display_effect(cpu, io, bytes).1, bytes).1 == io,
{
    let once = display_effect(cpu, io, bytes);
    assert(once.0.regs[op_x(bytes)] == cpu.regs[op_x(bytes)]);
    assert(once.0.regs[op_y(bytes)] == cpu.regs[op_y(bytes)]);
    lemma_draw_twice_restores(io.vga, io.ram, cpu.index, cpu.regs[op_x(bytes)], cpu.regs[op_y(bytes)], op_n(bytes));
}

/// A sprite drawn on a dark display collides with nothing, so DXYN after a
/// clear leaves VF at 0.
pub proof fn lemma_draw_on_dark_display(cpu: CpuState, io: IoState, bytes: u16)
    requires
        cpu.regs.len() == 16,
        io.vga == dark_vga(),
    ensures
        display_effect(cpu, io, bytes).0.regs[15] == 0,
{
    let vx = cpu.regs[op_x(bytes)];
    let vy = cpu.regs[op_y(bytes)];
    if collides(io.vga, io.ram, cpu.index, vx, vy, op_n(bytes)) {
        let (c, r) = choose|c: int, r: int|
            0 <= c < op_n(bytes) && 0 <= r < 8 && sprite_bit(io.ram[cpu.index + c], r)
                && #[trigger] io.vga[pixel_index(vx, vy, c, r)];
        let p = pixel_index(vx, vy, c, r);
        assert(0 <= p < 2048);
        assert(!io.vga[p]);
    }
}

/// Returning right after a call gives back the processor as it was before
/// the call.
pub proof fn lemma_call_then_return(s: CpuState, target: u16)
    ensures
        return_effect(call_effect(s, target)) == s,
{
    assert(s.stack.push(s.pc).drop_last() =~= s.stack);
}

/// Loading registers V0 to VX from where they were just stored gives them
/// back.
pub proof fn lemma_store_then_load(ram: Seq<u8>, regs: Seq<u8>, i: int, x: int)
    requires
        0 <= x < regs.len(),
        0 <= i,
        i + x < ram.len(),
    ensures
        load_regs(regs, i, store_ram(ram, i, regs, x), x) == regs,
{
    assert(load_regs(regs, i, store_ram(ram, i, regs, x), x) =~= regs);
}

/// FX55 followed, once I is set back, by FX65 with the same X gives back the
/// registers.
pub proof fn lemma_fx55_then_fx65(cpu: CpuState, io: IoState, store: u16, load: u16, keys: Seq<bool>)
    requires
        cpu.regs.len() == 16,
        io.ram.len() == 4096,
        op_nn(store) == 0x55,
        op_nn(load) == 0x65,
        op_x(store) == op_x(load),
        cpu.index + op_x(store) < 4096,
    ensures
        ({
            let stored = fx_effect(cpu, io, store, keys);
            fx_effect(stored.0.with_index(cpu.index), stored.1, load, keys).0.regs == cpu.regs
        }),
{
    lemma_store_then_load(io.ram, cpu.regs, cpu.index as int, op_x(store));
}

/// 8XY4 with X other than F: VF is the carry, so 256 * VF + VX is the sum.
pub proof fn lemma_add_carry(s: CpuState, bytes: u16)
    requires
        s.regs.len() == 16,
        op_n(bytes) == 4,
        op_x(bytes) != 15,
    ensures
        alu_effect(s, bytes).regs[15] * 256 + alu_effect(s, bytes).regs[op_x(bytes)]
            == s.regs[op_x(bytes)] + s.regs[op_y(bytes)],
{
}

/// Subtracting a byte and adding it back, modulo 256, gives the first byte.
pub proof fn lemma_sub_then_add(a: u8, b: u8)
    ensures
        add8(sub8(a, b), b) == a,
{
}

/// FX33 writes the decimal digits of VX: each is below ten and together
/// they make up VX.
pub proof fn lemma_bcd_digits(ram: Seq<u8>, i: int, v: u8)
    requires
        0 <= i,
        i + 2 < ram.len(),
    ensures
        bcd_ram(ram, i, v)[i] < 10,
        bcd_ram(ram, i, v)[i + 1] < 10,
        bcd_ram(ram, i, v)[i + 2] < 10,
        bcd_ram(ram, i, v)[i] * 100 + bcd_ram(ram, i, v)[i + 1] * 10 + bcd_ram(ram, i, v)[i + 2] == v,
{
}

/// FX29 points I at the glyph of digit VX in the font that power-on loads.
pub proof fn lemma_font_address(cpu: CpuState, io: IoState, bytes: u16, keys: Seq<bool>, k: int)
    requires
        cpu.regs.len() == 16,
        op_nn(bytes) == 0x29,
        cpu.regs[op_x(bytes)] < 16,
        0 <= k < 5,
    ensures
        initial_io().ram[fx_effect(cpu, io, bytes, keys).0.index + k]
            == SPRITES_DATA@[5 * cpu.regs[op_x(bytes)] + k],
{
}

/// 3XNN and 4XNN with the same operands: exactly one of them skips.
pub proof fn lemma_skip_complement(s: CpuState, cond: bool)
    requires
        s.pc + 2 <= u16::MAX,
    ensures
        (s.skip_if(cond) == s) != (s.skip_if(!cond) == s),
{
    if cond {
        assert(s.skip_if(cond).pc != s.pc);
    } else {
        assert(s.skip_if(!cond).pc != s.pc);
    }
}

/// While the processor waits for a key, a cycle fetches nothing: the program
/// counter and the word stay.
pub proof fn lemma_waiting_does_not_fetch(cpu: CpuState, io: IoState, word: u16)
    requires
        cpu.wait,
    ensures
        fetch_phase(cpu, io, word).0 == cpu,
        fetch_phase(cpu, io, word).2 == word,
{
}


/// The display position, row after row, of column (`vx` + `r`) mod 64 and
/// row (`vy` + `c`) mod 32.
pub open spec fn screen_position(vx: u8, vy: u8, c: int, r: int) -> int {
    (vx as int + r) % 64 + ((vy as int + c) % 32) * 64
}

/// Bit `7 - r` of a byte, counted from the least significant bit.
pub open spec fn bit_from_left(line: u8, r: int) -> bool {
    (line as int / pow2((7 - r) as nat) as int) % 2 == 1
}

proof fn lemma_sprite_bit_is_arithmetic(line: u8, r: int)
    requires
        0 <= r < 8,
    ensures
        sprite_bit(line, r) == bit_from_left(line, r),
{
    lemma2_to64();
    if r == 0 {
        assert(((line >> 7u8) & 1u8 == 1u8) == ((line / 128) % 2 == 1)) by (bit_vector);
    } else if r == 1 {
        assert(((line >> 6u8) & 1u8 == 1u8) == ((line / 64) % 2 == 1)) by (bit_vector);
    } else if r == 2 {
        assert(((line >> 5u8) & 1u8 == 1u8) == ((line / 32) % 2 == 1)) by (bit_vector);
    } else if r == 3 {
        assert(((line >> 4u8) & 1u8 == 1u8) == ((line / 16) % 2 == 1)) by (bit_vector);
    } else if r == 4 {
        assert(((line >> 3u8) & 1u8 == 1u8) == ((line / 8) % 2 == 1)) by (bit_vector);
    } else if r == 5 {
        assert(((line >> 2u8) & 1u8 == 1u8) == ((line / 4) % 2 == 1)) by (bit_vector);
    } else if r == 6 {
        assert(((line >> 1u8) & 1u8 == 1u8) == ((line / 2) % 2 == 1)) by (bit_vector);
    } else {
        assert(((line >> 0u8) & 1u8 == 1u8) == ((line / 1) % 2 == 1)) by (bit_vector);
    }
}

/// DXYN: bit `7 - r` of sprite line `c` (line `c` lying at I + c) flips the
/// pixel at column (VX + r) mod 64, row (VY + c) mod 32, and only when set.
pub proof fn lemma_display_flips_sprite_bits(cpu: CpuState, io: IoState, bytes: u16, c: int, r: int)
    requires
        cpu.regs.len() == 16,
        io.vga.len() == 2048,
        0 <= c < bytes as int % 16,
        0 <= r < 8,
    ensures
        ({
            let vx = cpu.regs[(bytes as int / 256) % 16];
            let vy = cpu.regs[(bytes as int / 16) % 16];
            let p = screen_position(vx, vy, c, r);
            &&& 0 <= p < 2048
            &&& display_effect(cpu, io, bytes).1.vga[p]
                == (io.vga[p] != bit_from_left(io.ram[cpu.index + c], r))
        }),
{
    let vx = cpu.regs[(bytes as int / 256) % 16];
    let vy = cpu.regs[(bytes as int / 16) % 16];
    let n = bytes as int % 16;
    let p = pixel_index(vx, vy, c, r);
    lemma_sprite_bit_is_arithmetic(io.ram[cpu.index + c], r);
    if sprite_bit(io.ram[cpu.index + c], r) {
        assert(hits(io.ram, cpu.index, vx, vy, c, r, p));
    }
    if covers(io.ram, cpu.index, vx, vy, n, p) {
        let (c2, r2) = choose|c2: int, r2: int| 0 <= c2 < n && #[trigger] hits(io.ram, cpu.index, vx, vy, c2, r2, p);
        lemma_pixel_injective(vx, vy, c2, r2, c, r);
    }
}

/// DXYN leaves alone every pixel that no bit of the sprite lands on, and
/// memory and timers.
pub proof fn lemma_display_keeps_other_pixels(cpu: CpuState, io: IoState, bytes: u16, p: int)
    requires
        cpu.regs.len() == 16,
        io.vga.len() == 2048,
        0 <= p < 2048,
        forall|c: int, r: int| 0 <= c < bytes as int % 16 && 0 <= r < 8 ==>
            #[trigger] screen_position(cpu.regs[(bytes as int / 256) % 16], cpu.regs[(bytes as int / 16) % 16], c, r) != p,
    ensures
        display_effect(cpu, io, bytes).1.vga[p] == io.vga[p],
        display_effect(cpu, io, bytes).1.vga.len() == 2048,
        display_effect(cpu, io, bytes).1.ram == io.ram,
        display_effect(cpu, io, bytes).1.delay_timer == io.delay_timer,
        display_effect(cpu, io, bytes).1.sound_timer == io.sound_timer,
        display_effect(cpu, io, bytes).1.audio_pattern_buffer == io.audio_pattern_buffer,
{
    let vx = cpu.regs[(bytes as int / 256) % 16];
    let vy = cpu.regs[(bytes as int / 16) % 16];
    let n = bytes as int % 16;
    if covers(io.ram, cpu.index, vx, vy, n, p) {
        let (c2, r2) = choose|c2: int, r2: int| 0 <= c2 < n && #[trigger] hits(io.ram, cpu.index, vx, vy, c2, r2, p);
        assert(screen_position(vx, vy, c2, r2) != p);
    }
}

/// DXYN sets VF to 1 exactly when a set sprite bit lands on a lit pixel, and
/// to 0 otherwise; no other register, nor the program counter, the address
/// register or the stack, changes.
pub proof fn lemma_display_collision_flag(cpu: CpuState, io: IoState, bytes: u16)
    requires
        cpu.regs.len() == 16,
        io.vga.len() == 2048,
    ensures
        ({
            let vx = cpu.regs[(bytes as int / 256) % 16];
            let vy = cpu.regs[(bytes as int / 16) % 16];
            let hit = exists|c: int, r: int|
                0 <= c < bytes as int % 16 && 0 <= r < 8 && #[trigger] bit_from_left(io.ram[cpu.index + c], r)
                    && io.vga[screen_position(vx, vy, c, r)];
            let t = display_effect(cpu, io, bytes).0;
            &&& t.regs.len() == 16
            &&& t.regs[15] == (if hit { 1u8 } else { 0u8 })
            &&& forall|k: int| 0 <= k < 15 ==> t.regs[k] == cpu.regs[k]
            &&& t.pc == cpu.pc
            &&& t.index == cpu.index
            &&& t.stack == cpu.stack
            &&& t.wait == cpu.wait
        }),
{
    let vx = cpu.regs[(bytes as int / 256) % 16];
    let vy = cpu.regs[(bytes as int / 16) % 16];
    let n = bytes as int % 16;
    let hit = exists|c: int, r: int|
        0 <= c < n && 0 <= r < 8 && #[trigger] bit_from_left(io.ram[cpu.index + c], r)
            && io.vga[screen_position(vx, vy, c, r)];
    if collides(io.vga, io.ram, cpu.index, vx, vy, n) {
        let (c, r) = choose|c: int, r: int|
            0 <= c < n && 0 <= r < 8 && sprite_bit(io.ram[cpu.index + c], r)
                && #[trigger] io.vga[pixel_index(vx, vy, c, r)];
        lemma_sprite_bit_is_arithmetic(io.ram[cpu.index + c], r);
        assert(bit_from_left(io.ram[cpu.index + c], r));
    }
    if hit {
        let (c, r) = choose|c: int, r: int|
            0 <= c < n && 0 <= r < 8 && #[trigger] bit_from_left(io.ram[cpu.index + c], r)
                && io.vga[screen_position(vx, vy, c, r)];
        lemma_sprite_bit_is_arithmetic(io.ram[cpu.index + c], r);
        assert(io.vga[pixel_index(vx, vy, c, r)]);
    }
}


/// 8XY_ with X other than F: what each operation leaves in VX and VF, in
/// terms of the old VX and VY; the other registers, the program counter, the
/// address register, the stack and the wait flag stay.
#[verifier::rlimit(40)]
pub proof fn lemma_alu_results(s: CpuState, bytes: u16)
    requires
        s.regs.len() == 16,
        (bytes as int / 256) % 16 != 15,
    ensures
        ({
            let x = (bytes as int / 256) % 16;
            let n = bytes as int % 16;
            let vx = s.regs[x] as int;
            let vy = s.regs[(bytes as int / 16) % 16] as int;
            let t = alu_effect(s, bytes);
            let nx = t.regs[x] as int;
            let vf = t.regs[15] as int;
            &&& t.regs.len() == 16
            &&& t.pc == s.pc && t.index == s.index && t.stack == s.stack && t.wait == s.wait
            &&& forall|k: int| 0 <= k < 15 && k != x ==> t.regs[k] == s.regs[k]
            &&& n == 0 ==> nx == vy && vf == s.regs[15]
            &&& n == 1 ==> t.regs[x] == (s.regs[x] | s.regs[(bytes as int / 16) % 16]) && vf == s.regs[15]
            &&& n == 2 ==> t.regs[x] == (s.regs[x] & s.regs[(bytes as int / 16) % 16]) && vf == s.regs[15]
            &&& n == 3 ==> t.regs[x] == (s.regs[x] ^ s.regs[(bytes as int / 16) % 16]) && vf == s.regs[15]
            &&& n == 4 ==> nx + 256 * vf == vx + vy && vf <= 1
            &&& n == 5 ==> (nx + vy) % 256 == vx && vf == (if vx > vy { 1int } else { 0int })
            &&& n == 6 ==> 2 * nx + vf == vy && vf <= 1
            &&& n == 7 ==> (nx + vx) % 256 == vy && vf == (if vy > vx { 1int } else { 0int })
            &&& n == 14 ==> nx == (2 * vy) % 256 && vf == vy - vy % 128
            &&& (8 <= n <= 13 || n == 15) ==> t == s
        }),
{
    let x = (bytes as int / 256) % 16;
    let y = (bytes as int / 16) % 16;
    let n = bytes as int % 16;
    let t = alu_effect(s, bytes);
    assert(t.regs.len() == 16);
    if n == 4 {
        assert(t.regs[15] == (if s.regs[x] + s.regs[y] > 255 { 1u8 } else { 0u8 }));
    } else if n == 5 {
        assert(t.regs[15] == (if s.regs[x] > s.regs[y] { 1u8 } else { 0u8 }));
    } else if n == 6 {
        assert(t.regs[15] == s.regs[y] % 2);
    } else if n == 7 {
        assert(t.regs[15] == (if s.regs[y] > s.regs[x] { 1u8 } else { 0u8 }));
    } else if n == 14 {
        assert(t.regs[15] == (if s.regs[y] >= 128 { 128u8 } else { 0u8 }));
    }
}

/// 8XY_ with X equal to F: the flag is written last, so VF holds the carry,
/// borrow or shifted-out bit.
pub proof fn lemma_alu_flag_into_vf(s: CpuState, bytes: u16)
    requires
        s.regs.len() == 16,
        (bytes as int / 256) % 16 == 15,
    ensures
        ({
            let n = bytes as int % 16;
            let vx = s.regs[15] as int;
            let vy = s.regs[(bytes as int / 16) % 16] as int;
            let vf = alu_effect(s, bytes).regs[15] as int;
            &&& n == 4 ==> vf == (if vx + vy > 255 { 1int } else { 0int })
            &&& n == 5 ==> vf == (if vx > vy { 1int } else { 0int })
            &&& n == 6 ==> vf == vy % 2
            &&& n == 7 ==> vf == (if vy > vx { 1int } else { 0int })
            &&& n == 14 ==> vf == vy - vy % 128
        }),
{
}

/// The earlier processor's 8XY_ with X other than F: additions and
/// subtractions set VF as a carry or a flag, shifts leave VF alone.
#[verifier::rlimit(40)]
pub proof fn lemma_misc_alu_results(s: MiscState, bytes: Seq<u8>)
    requires
        s.regs.len() == 16,
        bytes.len() == 2,
        bytes[0] % 16 != 15,
    ensures
        ({
            let x = (bytes[0] % 16) as int;
            let n = bytes[1] % 16;
            let vx = s.regs[x] as int;
            let vy = s.regs[(bytes[1] / 16) as int] as int;
            let t = misc_alu_effect(s, bytes);
            let nx = t.regs[x] as int;
            let vf = t.regs[15] as int;
            &&& t.regs.len() == 16
            &&& t.pc == s.pc && t.index == s.index && t.stack == s.stack && t.stack_pointer == s.stack_pointer
            &&& forall|k: int| 0 <= k < 15 && k != x ==> t.regs[k] == s.regs[k]
            &&& n == 0 ==> nx == vy && vf == s.regs[15]
            &&& n == 1 ==> t.regs[x] == (s.regs[x] | s.regs[(bytes[1] / 16) as int]) && vf == s.regs[15]
            &&& n == 2 ==> t.regs[x] == (s.regs[x] & s.regs[(bytes[1] / 16) as int]) && vf == s.regs[15]
            &&& n == 3 ==> t.regs[x] == (s.regs[x] ^ s.regs[(bytes[1] / 16) as int]) && vf == s.regs[15]
            &&& n == 4 ==> nx + 256 * vf == vx + vy && vf <= 1
            &&& n == 5 ==> (nx + vy) % 256 == vx && vf == (if vx > vy { 1int } else { 0int })
            &&& n == 6 ==> 2 * nx + vy % 2 == vy && vf == s.regs[15]
            &&& n == 7 ==> (nx + vx) % 256 == vy && vf == (if vx < vy { 1int } else { 0int })
            &&& n == 14 ==> nx == (2 * vy) % 256 && vf == s.regs[15]
            &&& (8 <= n <= 13 || n == 15) ==> t == s
        }),
{
    let x = (bytes[0] % 16) as int;
    let n = bytes[1] % 16;
    let t = misc_alu_effect(s, bytes);
    assert(t.regs.len() == 16);
    if n == 4 || n == 5 || n == 7 {
        assert(t.regs[15] == (if n == 4 { if s.regs[x] + s.regs[(bytes[1] / 16) as int] > 255 { 1u8 } else { 0u8 } }
            else if n == 5 { if s.regs[x] > s.regs[(bytes[1] / 16) as int] { 1u8 } else { 0u8 } }
            else { if s.regs[x] < s.regs[(bytes[1] / 16) as int] { 1u8 } else { 0u8 } }));
    }
}

/// The earlier processor's 8XY_ with X equal to F: the result is written
/// after the flag, so VF holds the result.
pub proof fn lemma_misc_alu_result_into_vf(s: MiscState, bytes: Seq<u8>)
    requires
        s.regs.len() == 16,
        bytes.len() == 2,
        bytes[0] % 16 == 15,
    ensures
        ({
            let n = bytes[1] % 16;
            let vx = s.regs[15] as int;
            let vy = s.regs[(bytes[1] / 16) as int] as int;
            let vf = misc_alu_effect(s, bytes).regs[15] as int;
            &&& n == 4 ==> vf == (vx + vy) % 256
            &&& n == 5 ==> (vf + vy) % 256 == vx
            &&& n == 7 ==> (vf + vx) % 256 == vy
        }),
{
}

/// The address held in two instruction bytes is their low twelve bits.
pub proof fn lemma_address_of_bytes(bytes: Seq<u8>)
    requires
        bytes.len() == 2,
    ensures
        address_of(bytes) == (bytes[0] % 16) * 256 + bytes[1],
{
}


/// Whether two processor states agree on everything but the registers and
/// the address register.
pub open spec fn same_control(t: CpuState, s: CpuState) -> bool {
    t.pc == s.pc && t.stack == s.stack && t.wait == s.wait
}

/// Whether two memory states agree on the timers and the audio pattern.
pub open spec fn same_timers(t: IoState, s: IoState) -> bool {
    t.delay_timer == s.delay_timer && t.sound_timer == s.sound_timer
        && t.audio_pattern_buffer == s.audio_pattern_buffer
}

/// FX__: what each instruction does, in terms of X (bits 8..12 of the word),
/// VX, I and memory.
#[verifier::rlimit(40)]
pub proof fn lemma_fx_results(cpu: CpuState, io: IoState, bytes: u16, keys: Seq<bool>)
    requires
        cpu.regs.len() == 16,
        io.ram.len() == 4096,
        io.vga.len() == 2048,
        fx_ok(cpu, io, bytes),
    ensures
        ({
            let k = bytes as int % 256;
            let x = (bytes as int / 256) % 16;
            let vx = cpu.regs[x];
            let i = cpu.index as int;
            let t = fx_effect(cpu, io, bytes, keys);
            &&& k == 0x02 ==> t.0 == cpu && t.1.ram == io.ram && t.1.vga == io.vga
                && t.1.delay_timer == io.delay_timer && t.1.sound_timer == io.sound_timer
                && t.1.audio_pattern_buffer == io.ram[i] * 256 + io.ram[i + 1]
            &&& k == 0x07 ==> t.0.regs == cpu.regs.update(x, io.delay_timer) && t.0.index == cpu.index
                && same_control(t.0, cpu) && t.1 == io
            &&& k == 0x15 ==> t.0 == cpu && t.1.delay_timer == vx && t.1.sound_timer == io.sound_timer
                && t.1.ram == io.ram && t.1.vga == io.vga && t.1.audio_pattern_buffer == io.audio_pattern_buffer
            &&& k == 0x18 ==> t.0 == cpu && t.1.sound_timer == vx && t.1.delay_timer == io.delay_timer
                && t.1.ram == io.ram && t.1.vga == io.vga && t.1.audio_pattern_buffer == io.audio_pattern_buffer
            &&& k == 0x1e ==> t.0.index == (i + vx) % 65536 && t.0.regs == cpu.regs && same_control(t.0, cpu) && t.1 == io
            &&& k == 0x29 ==> t.0.index == 5 * vx && t.0.regs == cpu.regs && same_control(t.0, cpu) && t.1 == io
            &&& k == 0x33 ==> {
                &&& t.0 == cpu
                &&& t.1.vga == io.vga && same_timers(t.1, io)
                &&& t.1.ram.len() == 4096
                &&& t.1.ram[i] < 10 && t.1.ram[i + 1] < 10 && t.1.ram[i + 2] < 10
                &&& t.1.ram[i] * 100 + t.1.ram[i + 1] * 10 + t.1.ram[i + 2] == vx
                &&& forall|j: int| 0 <= j < 4096 && (j < i || j > i + 2) ==> t.1.ram[j] == io.ram[j]
            }
            &&& k == 0x55 ==> {
                &&& t.0.index == i + x + 1 && t.0.regs == cpu.regs && same_control(t.0, cpu)
                &&& t.1.vga == io.vga && same_timers(t.1, io)
                &&& t.1.ram.len() == 4096
                &&& forall|j: int| 0 <= j < 4096 ==> #[trigger] t.1.ram[j]
                    == (if i <= j <= i + x { cpu.regs[j - i] } else { io.ram[j] })
            }
            &&& k == 0x65 ==> {
                &&& t.0.index == i + x + 1 && same_control(t.0, cpu) && t.1 == io
                &&& t.0.regs.len() == 16
                &&& forall|j: int| 0 <= j < 16 ==> #[trigger] t.0.regs[j]
                    == (if j <= x { io.ram[i + j] } else { cpu.regs[j] })
            }
            &&& k == 0x0a ==> t.0.wait == !(exists|j: int| 0 <= j < 16 && #[trigger] keys[j])
                && t.0.pc == cpu.pc && t.0.stack == cpu.stack && t.0.regs == cpu.regs
                && t.0.index == cpu.index && t.1 == io
            &&& k == 0x3a ==> t == (cpu, io) && fx_outcome(cpu, bytes)
                == (FxOutcome::ChangeFrequency { rate: (8000u16 ^ (((vx - 64) / 48) as u16)), pitch: vx })
            &&& (k == 0x02 || k == 0x07 || k == 0x15 || k == 0x18 || k == 0x1e || k == 0x29 || k == 0x33
                || k == 0x55 || k == 0x65 || k == 0x0a) ==> fx_outcome(cpu, bytes) == FxOutcome::Done
            &&& !(k == 0x02 || k == 0x07 || k == 0x15 || k == 0x18 || k == 0x1e || k == 0x29 || k == 0x33
                || k == 0x55 || k == 0x65 || k == 0x0a || k == 0x3a) ==> t == (cpu, io)
                && fx_outcome(cpu, bytes) == FxOutcome::Unknown
        }),
{
    let k = bytes as int % 256;
    let x = (bytes as int / 256) % 16;
    let t = fx_effect(cpu, io, bytes, keys);
    if k == 0x55 {
        assert(t.1.ram == store_ram(io.ram, cpu.index as int, cpu.regs, x));
    } else if k == 0x65 {
        assert(t.0.regs == load_regs(cpu.regs, cpu.index as int, io.ram, x));
    } else if k == 0x33 {
        assert(t.1.ram == bcd_ram(io.ram, cpu.index as int, cpu.regs[x]));
    }
}

/// EX9E skips exactly when the key numbered VX is held down, EXA1 exactly
/// when it is not; nothing else changes, and other EX__ words change nothing.
pub proof fn lemma_key_results(cpu: CpuState, bytes: u16, keys: Seq<bool>)
    requires
        cpu.regs.len() == 16,
        keys.len() == 16,
        key_ok(cpu, bytes, keys),
    ensures
        ({
            let k = bytes as int % 256;
            let vx = cpu.regs[(bytes as int / 256) % 16] as int;
            let t = key_effect(cpu, bytes, keys);
            &&& t.regs == cpu.regs && t.index == cpu.index && t.stack == cpu.stack && t.wait == cpu.wait
            &&& k == 0x9e ==> 0 <= vx < 16 && t.pc == (if keys[vx] { cpu.pc + 2 } else { cpu.pc as int })
            &&& k == 0xa1 ==> 0 <= vx < 16 && t.pc == (if !keys[vx] { cpu.pc + 2 } else { cpu.pc as int })
            &&& k != 0x9e && k != 0xa1 ==> t == cpu
        }),
{
}


/// Whether sprite line `c` lies in memory and each of its set bits has
/// coordinates within a byte.
pub open spec fn line_in_range(ram: Seq<u8>, i: int, vx: int, vy: int, c: int) -> bool {
    &&& i + c < 4096
    &&& forall|r: int| 0 <= r < 8 && #[trigger] bit_from_left(ram[i + c], r) ==> vx + r <= 255 && vy + c <= 255
}

proof fn lemma_line_ok_is_arithmetic(ram: Seq<u8>, i: u16, vx: u8, vy: u8, c: int)
    ensures
        line_ok(ram, i, vx, vy, c) == line_in_range(ram, i as int, vx as int, vy as int, c),
{
    assert forall|r: int| 0 <= r < 8 implies sprite_bit(ram[i + c], r) == #[trigger] bit_from_left(ram[i + c], r) by {
        lemma_sprite_bit_is_arithmetic(ram[i + c], r);
    }
    if line_ok(ram, i, vx, vy, c) {
        assert forall|r: int| 0 <= r < 8 && #[trigger] bit_from_left(ram[i + c], r) implies vx + r <= 255 && vy + c <= 255 by {
            assert(sprite_bit(ram[i + c], r));
        }
    }
    if line_in_range(ram, i as int, vx as int, vy as int, c) {
        assert forall|r: int| 0 <= r < 8 && #[trigger] sprite_bit(ram[i + c], r) implies vx + r <= 255 && vy + c <= 255 by {
            assert(bit_from_left(ram[i + c], r));
        }
    }
}

/// One instruction, by its family (bits 12..16): where control goes, which
/// register changes and how, and which part of the machine carries it out.
#[verifier::rlimit(40)]
pub proof fn lemma_decode_results(cpu: CpuState, io: IoState, bytes: u16, keys: Seq<bool>)
    requires
        cpu.regs.len() == 16,
        io.vga.len() == 2048,
        decode_ok(cpu, io, bytes, keys),
    ensures
        ({
            let f = bytes as int / 4096;
            let x = (bytes as int / 256) % 16;
            let vx = cpu.regs[x];
            let vy = cpu.regs[(bytes as int / 16) % 16];
            let nn = bytes as int % 256;
            let nnn = bytes as int % 4096;
            let d = decode_effect(cpu, io, bytes, keys);
            &&& f == 1 ==> d.0.pc == nnn && d.0.stack == cpu.stack && d.0.regs == cpu.regs
                && d.0.index == cpu.index && d.0.wait == cpu.wait && d.1 == io
            &&& f == 2 ==> d.0.pc == nnn && d.0.stack == cpu.stack.push(cpu.pc) && d.0.regs == cpu.regs
                && d.0.index == cpu.index && d.0.wait == cpu.wait && d.1 == io
            &&& f == 3 ==> d.0.pc == (if vx == nn { cpu.pc + 2 } else { cpu.pc as int })
                && d.0.regs == cpu.regs && d.0.stack == cpu.stack && d.0.index == cpu.index && d.1 == io
            &&& f == 4 ==> d.0.pc == (if vx != nn { cpu.pc + 2 } else { cpu.pc as int })
                && d.0.regs == cpu.regs && d.0.stack == cpu.stack && d.0.index == cpu.index && d.1 == io
            &&& f == 5 ==> d.0.pc == (if vx == vy { cpu.pc + 2 } else { cpu.pc as int })
                && d.0.regs == cpu.regs && d.0.stack == cpu.stack && d.0.index == cpu.index && d.1 == io
            &&& f == 9 ==> d.0.pc == (if vx != vy { cpu.pc + 2 } else { cpu.pc as int })
                && d.0.regs == cpu.regs && d.0.stack == cpu.stack && d.0.index == cpu.index && d.1 == io
            &&& f == 6 ==> d.0.regs == cpu.regs.update(x, nn as u8) && same_control(d.0, cpu)
                && d.0.index == cpu.index && d.1 == io
            &&& f == 7 ==> d.0.regs.len() == 16 && d.0.regs[x] == (vx + nn) % 256
                && (forall|k: int| 0 <= k < 16 && k != x ==> d.0.regs[k] == cpu.regs[k])
                && same_control(d.0, cpu) && d.0.index == cpu.index && d.1 == io
            &&& f == 8 ==> d == (alu_effect(cpu, bytes), io)
            &&& f == 10 ==> d.0.index == nnn && d.0.regs == cpu.regs && same_control(d.0, cpu) && d.1 == io
            &&& f == 13 ==> d == display_effect(cpu, io, bytes)
            &&& f == 14 ==> d == (key_effect(cpu, bytes, keys), io)
            &&& f == 15 ==> d == fx_effect(cpu, io, bytes, keys)
            &&& (f == 11 || f == 12) ==> d == (cpu, io)
            &&& f == 0 && nn == 0xe0 ==> d.0 == cpu && d.1.ram == io.ram && same_timers(d.1, io)
                && d.1.vga.len() == 2048 && (forall|p: int| 0 <= p < 2048 ==> !#[trigger] d.1.vga[p])
            &&& f == 0 && nn == 0xee && cpu.stack.len() > 0 ==> d.0.pc == cpu.stack.last()
                && d.0.stack == cpu.stack.drop_last() && d.0.regs == cpu.regs && d.0.index == cpu.index
                && d.1 == io
            &&& f == 0 && nn == 0xee && cpu.stack.len() == 0 ==> d == (cpu, io)
            &&& f == 0 && nn != 0xe0 && nn != 0xee ==> d == (cpu, io)
        }),
{
}

/// What one instruction asks of the caller, by its family.
pub proof fn lemma_decode_outcomes(cpu: CpuState, bytes: u16)
    requires
        cpu.regs.len() == 16,
    ensures
        ({
            let f = bytes as int / 4096;
            let nn = bytes as int % 256;
            let r = decode_outcome(cpu, bytes);
            &&& bytes == 0 ==> r == Step::Halt
            &&& f == 0 && nn == 0 && bytes != 0 ==> r == Step::Continue
            &&& f == 0 && nn == 0xe0 ==> r == Step::ClearScreen
            &&& f == 0 && nn == 0xee ==> r == Step::Continue
            &&& f == 0 && nn != 0 && nn != 0xe0 && nn != 0xee ==> r == Step::UnknownSystem(bytes)
            &&& f == 13 ==> r == Step::Draw
            &&& (f == 11 || f == 12) ==> r == Step::UnknownFamily(f as u16)
            &&& (1 <= f <= 7 || f == 9 || f == 10) ==> r == Step::Continue
            &&& f == 8 ==> r == (if bytes as int % 16 <= 7 || bytes as int % 16 == 14 { Step::Continue }
                else { Step::UnknownArithmetic((bytes as int % 16) as u16) })
            &&& f == 14 ==> r == (if nn == 0x9e || nn == 0xa1 { Step::Continue } else { Step::UnknownKey(bytes) })
            &&& f == 15 && nn == 0x3a ==> r == Step::ChangeFrequency {
                rate: (8000u16 ^ (((cpu.regs[(bytes as int / 256) % 16] - 64) / 48) as u16)),
                pitch: cpu.regs[(bytes as int / 256) % 16],
            }
        }),
{
}

/// When each instruction is carried out rather than refused: skips need room
/// for the program counter, EX__ a key number below 16, FX__ memory and a
/// pitch of at least 64, DXYN its sprite lines in memory and its set bits'
/// coordinates within a byte.
#[verifier::rlimit(40)]
pub proof fn lemma_decode_defined(cpu: CpuState, io: IoState, bytes: u16, keys: Seq<bool>)
    requires
        cpu.regs.len() == 16,
        io.ram.len() == 4096,
        keys.len() == 16,
    ensures
        ({
            let f = bytes as int / 4096;
            let x = (bytes as int / 256) % 16;
            let vx = cpu.regs[x] as int;
            let vy = cpu.regs[(bytes as int / 16) % 16] as int;
            let nn = bytes as int % 256;
            let i = cpu.index as int;
            let room = cpu.pc + 2 <= 0xffff;
            let ok = decode_ok(cpu, io, bytes, keys);
            &&& (f <= 2 || (6 <= f <= 8) || (10 <= f <= 12)) ==> ok
            &&& f == 3 ==> (ok <==> (vx == nn ==> room))
            &&& f == 4 ==> (ok <==> (vx != nn ==> room))
            &&& f == 5 ==> (ok <==> (vx == vy ==> room))
            &&& f == 9 ==> (ok <==> (vx != vy ==> room))
            &&& f == 14 && nn == 0x9e ==> (ok <==> vx < 16 && (keys[vx] ==> room))
            &&& f == 14 && nn == 0xa1 ==> (ok <==> vx < 16 && (!keys[vx] ==> room))
            &&& f == 14 && nn != 0x9e && nn != 0xa1 ==> ok
            &&& f == 15 && nn == 0x02 ==> (ok <==> i + 1 < 4096)
            &&& f == 15 && nn == 0x3a ==> (ok <==> vx >= 64)
            &&& f == 15 && nn == 0x33 ==> (ok <==> i + 2 < 4096)
            &&& f == 15 && (nn == 0x55 || nn == 0x65) ==> (ok <==> i + x < 4096)
            &&& f == 15 && !(nn == 0x02 || nn == 0x3a || nn == 0x33 || nn == 0x55 || nn == 0x65) ==> ok
            &&& f == 13 ==> (ok <==> forall|c: int| 0 <= c < bytes as int % 16 ==>
                #[trigger] line_in_range(io.ram, i, vx, vy, c))
        }),
{
    let f = bytes as int / 4096;
    if f == 13 {
        let vx = cpu.regs[(bytes as int / 256) % 16];
        let vy = cpu.regs[(bytes as int / 16) % 16];
        let i = cpu.index;
        let n = bytes as int % 16;
        if display_ok(cpu, io, bytes) {
            assert forall|c: int| 0 <= c < n implies #[trigger] line_in_range(io.ram, i as int, vx as int, vy as int, c) by {
                assert(line_ok(io.ram, i, vx, vy, c));
                lemma_line_ok_is_arithmetic(io.ram, i, vx, vy, c);
            }
        } else {
            let c = choose|c: int| 0 <= c < n && !#[trigger] line_ok(io.ram, i, vx, vy, c);
            lemma_line_ok_is_arithmetic(io.ram, i, vx, vy, c);
            assert(!line_in_range(io.ram, i as int, vx as int, vy as int, c));
        }
    }
}

/// A call through 2NNN followed by 00EE gives back the machine as it was.
pub proof fn lemma_decode_call_then_return(cpu: CpuState, io: IoState, call: u16, keys: Seq<bool>)
    requires
        cpu.regs.len() == 16,
        call as int / 4096 == 2,
    ensures
        ({
            let after_call = decode_effect(cpu, io, call, keys);
            decode_effect(after_call.0, after_call.1, 0x00ee, keys) == (cpu, io)
        }),
{
    assert(cpu.stack.push(cpu.pc).drop_last() =~= cpu.stack);
}

/// The fetch half of a cycle: a running processor reads the big-endian word
/// at the program counter (zero past memory) and moves past it; a waiting
/// one keeps its word and counts the delay timer down to zero.
pub proof fn lemma_fetch_results(cpu: CpuState, io: IoState, word: u16)
    requires
        io.ram.len() == 4096,
        !cpu.wait ==> fetch_ok(cpu),
    ensures
        ({
            let m = fetch_phase(cpu, io, word);
            &&& !cpu.wait ==> m.0.pc == cpu.pc + 2 && m.0.regs == cpu.regs && m.0.index == cpu.index
                && m.0.stack == cpu.stack && m.1 == io
                && m.2 == (if cpu.pc < 4096 { io.ram[cpu.pc as int] * 256 + io.ram[cpu.pc + 1] } else { 0int })
            &&& cpu.wait ==> m.0 == cpu && m.2 == word && m.1.ram == io.ram && m.1.vga == io.vga
                && m.1.sound_timer == io.sound_timer && m.1.audio_pattern_buffer == io.audio_pattern_buffer
                && m.1.delay_timer == (if io.delay_timer > 0 { io.delay_timer - 1 } else { 0int })
        }),
{
}

/// Loading a program: byte `k` of the image lands at 0x200 + k, memory past
/// the image up to the end is zero, and memory below 0x200 stays.
pub proof fn lemma_loaded_ram(ram: Seq<u8>, rom: Seq<u8>)
    requires
        ram.len() == 4096,
    ensures
        loaded_ram(ram, rom).len() == 4096,
        forall|j: int| 0 <= j < 512 ==> #[trigger] loaded_ram(ram, rom)[j] == ram[j],
        forall|k: int| 0 <= k < 3584 && k < rom.len() ==> #[trigger] loaded_ram(ram, rom)[512 + k] == rom[k],
        forall|k: int| 0 <= k < 3584 && k >= rom.len() ==> #[trigger] loaded_ram(ram, rom)[512 + k] == 0,
{
}


/// What the state updates of the processor change, and what they leave.
pub proof fn lemma_cpu_updates(s: CpuState, x: int, v: u8, p: u16, i: u16, w: bool, cond: bool)
    requires
        s.regs.len() == 16,
        0 <= x < 16,
    ensures
        s.with_reg(x, v).regs.len() == 16,
        s.with_reg(x, v).regs[x] == v,
        forall|k: int| 0 <= k < 16 && k != x ==> #[trigger] s.with_reg(x, v).regs[k] == s.regs[k],
        same_control(s.with_reg(x, v), s) && s.with_reg(x, v).index == s.index,
        s.with_pc(p).pc == p && s.with_pc(p).regs == s.regs && s.with_pc(p).stack == s.stack
            && s.with_pc(p).index == s.index && s.with_pc(p).wait == s.wait,
        s.with_index(i).index == i && s.with_index(i).regs == s.regs && same_control(s.with_index(i), s),
        s.with_wait(w).wait == w && s.with_wait(w).regs == s.regs && s.with_wait(w).pc == s.pc
            && s.with_wait(w).stack == s.stack && s.with_wait(w).index == s.index,
        s.can_skip_if(cond) <==> (cond ==> s.pc <= 0xfffd),
        s.can_skip_if(cond) ==> s.skip_if(cond).pc == (if cond { s.pc + 2 } else { s.pc as int }),
        s.skip_if(cond).regs == s.regs && s.skip_if(cond).stack == s.stack && s.skip_if(cond).index == s.index
            && s.skip_if(cond).wait == s.wait,
{
}

/// What the state updates of the earlier processor change, and what they leave.
pub proof fn lemma_misc_updates(s: MiscState, x: int, v: u8, p: u16, i: u16, cond: bool)
    requires
        s.regs.len() == 16,
        0 <= x < 16,
    ensures
        s.with_reg(x, v).regs.len() == 16,
        s.with_reg(x, v).regs[x] == v,
        forall|k: int| 0 <= k < 16 && k != x ==> #[trigger] s.with_reg(x, v).regs[k] == s.regs[k],
        s.with_reg(x, v).pc == s.pc && s.with_reg(x, v).index == s.index && s.with_reg(x, v).stack == s.stack
            && s.with_reg(x, v).stack_pointer == s.stack_pointer,
        s.with_pc(p).pc == p && s.with_pc(p).regs == s.regs && s.with_pc(p).stack == s.stack
            && s.with_pc(p).index == s.index && s.with_pc(p).stack_pointer == s.stack_pointer,
        s.with_index(i).index == i && s.with_index(i).regs == s.regs && s.with_index(i).pc == s.pc
            && s.with_index(i).stack == s.stack && s.with_index(i).stack_pointer == s.stack_pointer,
        s.can_skip_if(cond) <==> (cond ==> s.pc <= 0xfffd),
        s.can_skip_if(cond) ==> s.skip_if(cond).pc == (if cond { s.pc + 2 } else { s.pc as int }),
        s.skip_if(cond).regs == s.regs && s.skip_if(cond).stack == s.stack && s.skip_if(cond).index == s.index
            && s.skip_if(cond).stack_pointer == s.stack_pointer,
{
}

/// The instructions of the earlier processor, in terms of their operands.
pub proof fn lemma_misc_results(s: MiscState, x: int, nn: u8, bytes: Seq<u8>)
    requires
        s.regs.len() == 16,
        0 <= x < 16,
        bytes.len() == 2,
        s.pc <= 0xfffd,
    ensures
        ({
            let bx = (bytes[0] % 16) as int;
            let by = (bytes[1] / 16) as int;
            &&& misc_call(s, bytes).pc == (bytes[0] % 16) * 256 + bytes[1]
            &&& misc_call(s, bytes).stack == s.stack.push(s.pc)
            &&& s.stack_pointer < 0xffff ==> misc_call(s, bytes).stack_pointer == s.stack_pointer + 1
            &&& misc_call(s, bytes).regs == s.regs && misc_call(s, bytes).index == s.index
            &&& s.stack.len() > 0 ==> misc_return(s).pc == s.stack.last() && misc_return(s).stack == s.stack.drop_last()
                && misc_return(s).stack_pointer == s.stack_pointer && misc_return(s).regs == s.regs
                && misc_return(s).index == s.index
            &&& misc_skip_eq_imm(s, x, nn).pc == (if s.regs[x] == nn { s.pc + 2 } else { s.pc as int })
            &&& misc_skip_ne_imm(s, x, nn).pc == (if s.regs[x] != nn { s.pc + 2 } else { s.pc as int })
            &&& misc_skip_eq_regs(s, bytes).pc == (if s.regs[bx] == s.regs[by] { s.pc + 2 } else { s.pc as int })
            &&& misc_skip_ne_regs(s, bytes).pc == (if s.regs[bx] != s.regs[by] { s.pc + 2 } else { s.pc as int })
            &&& misc_skip_eq_imm(s, x, nn).regs == s.regs && misc_skip_ne_imm(s, x, nn).regs == s.regs
            &&& misc_skip_eq_regs(s, bytes).regs == s.regs && misc_skip_ne_regs(s, bytes).regs == s.regs
            &&& misc_add_imm(s, x, nn).regs.len() == 16
            &&& misc_add_imm(s, x, nn).regs[x] == ((s.regs[x] + nn) % 256) % 255
            &&& forall|k: int| 0 <= k < 16 && k != x ==> #[trigger] misc_add_imm(s, x, nn).regs[k] == s.regs[k]
            &&& misc_add_imm(s, x, nn).pc == s.pc && misc_add_imm(s, x, nn).index == s.index
        }),
{
}

/// Byte arithmetic: addition is modulo 256, and subtraction undoes it.
pub proof fn lemma_byte_arithmetic(a: u8, b: u8)
    ensures
        add8(a, b) == (a + b) % 256,
        (sub8(a, b) + b) % 256 == a,
        word_of(a, b) == a * 256 + b,
{
}

/// The fields of an instruction word, as bit fields.
pub proof fn lemma_instruction_fields(bytes: u16)
    ensures
        op_x(bytes) == ((bytes >> 8u16) & 0xfu16),
        op_y(bytes) == ((bytes >> 4u16) & 0xfu16),
        op_n(bytes) == (bytes & 0xfu16),
        op_nn(bytes) == (bytes & 0xffu16),
        op_nnn(bytes) == (bytes & 0xfffu16),
        op_family(bytes) == (bytes >> 12u16),
{
    assert((bytes >> 8u16) & 0xfu16 == (bytes / 256) % 16) by (bit_vector);
    assert((bytes >> 4u16) & 0xfu16 == (bytes / 16) % 16) by (bit_vector);
    assert(bytes & 0xfu16 == bytes % 16) by (bit_vector);
    assert(bytes & 0xffu16 == bytes % 256) by (bit_vector);
    assert(bytes & 0xfffu16 == bytes % 4096) by (bit_vector);
    assert(bytes >> 12u16 == bytes / 4096) by (bit_vector);
}

/// CXNN with a given random byte: VX becomes the byte masked by NN, nothing
/// else changes.
pub proof fn lemma_masked_random(s: CpuState, bytes: u16, random: u8)
    requires
        s.regs.len() == 16,
    ensures
        ({
            let x = (bytes as int / 256) % 16;
            let t = masked_random(s, bytes, random);
            &&& t.regs.len() == 16
            &&& t.regs[x] == random & ((bytes as int % 256) as u8)
            &&& forall|k: int| 0 <= k < 16 && k != x ==> #[trigger] t.regs[k] == s.regs[k]
            &&& same_control(t, s) && t.index == s.index
        }),
{
}

/// A range of bytes holds, in order, the elements from `x` to `y`.
pub proof fn lemma_byte_range(s: Seq<u8>, x: int, y: int)
    requires
        0 <= x,
        x <= y ==> y < s.len(),
    ensures
        byte_range(s, x, y).len() == (if x <= y { y - x + 1 } else { 0 }),
        forall|k: int| 0 <= k < byte_range(s, x, y).len() ==> #[trigger] byte_range(s, x, y)[k] == s[x + k],
{
}

/// The sound timer counts down by one and stops at zero; nothing else changes.
pub proof fn lemma_sound_tick(io: IoState)
    ensures
        sound_tick(io).sound_timer == (if io.sound_timer > 0 { io.sound_timer - 1 } else { 0int }),
        sound_tick(io).delay_timer == io.delay_timer && sound_tick(io).ram == io.ram
            && sound_tick(io).vga == io.vga && sound_tick(io).audio_pattern_buffer == io.audio_pattern_buffer,
{
}

/// Quitting needs both a pending event and Escape; a key is in exactly one
/// of the two states.
pub proof fn lemma_input_decisions(keys: Seq<bool>, key: int, pending: bool, escape: bool)
    ensures
        quit_requested(pending, escape) <==> (pending && escape),
        key_in_state(keys, true, key) == keys[key],
        key_in_state(keys, false, key) == !keys[key],
{
}

/// The machine just after power-on: execution starts at 0x200 with every
/// register, the address register and the stack empty; the font fills memory
/// from address 0 and the rest of memory is zero; the display is dark and the
/// timers stopped.
pub proof fn lemma_power_on()
    ensures
        initial_cpu().pc == 0x200 && initial_cpu().index == 0 && initial_cpu().stack.len() == 0
            && !initial_cpu().wait && initial_cpu().regs.len() == 16,
        forall|k: int| 0 <= k < 16 ==> #[trigger] initial_cpu().regs[k] == 0,
        initial_misc().pc == 0x200 && initial_misc().index == 0 && initial_misc().stack.len() == 0
            && initial_misc().stack_pointer == 0 && initial_misc().regs.len() == 16,
        forall|k: int| 0 <= k < 16 ==> #[trigger] initial_misc().regs[k] == 0,
        initial_io().ram.len() == 4096 && initial_io().vga.len() == 2048,
        forall|k: int| 0 <= k < 80 ==> #[trigger] initial_io().ram[k] == SPRITES_DATA@[k],
        forall|k: int| 80 <= k < 4096 ==> #[trigger] initial_io().ram[k] == 0,
        forall|p: int| 0 <= p < 2048 ==> !#[trigger] initial_io().vga[p],
        initial_io().delay_timer == 0 && initial_io().sound_timer == 0 && initial_io().audio_pattern_buffer == 0,
{
}

} // verus!
