//! Memory, display and timers, and the instructions that reach them.
use vstd::prelude::*;
use crate::constants::SPRITES_DATA;
use crate::opcode::{op_x, op_y, op_n, op_nn, word_of, field_x, field_y, field_n, field_nn};
use crate::cpu_opcodes::{CPUOpcodes, CpuState, byte_range, lemma_cpu_register_count};
use crate::inputs::{Inputs, any_key_pressed};
use crate::xo_chip_extended::{inst_f002, inst_fn3a, playback_rate};

verus! {

broadcast use lemma_cpu_register_count;

/// The abstract state of memory, display and timers.
pub struct IoState {
    pub ram: Seq<u8>,
    /// One flag per pixel, row after row.
    pub vga: Seq<bool>,
    pub delay_timer: u8,
    pub sound_timer: u8,
    pub audio_pattern_buffer: u16,
}

impl IoState {
    pub open spec fn with_ram(self, ram: Seq<u8>) -> IoState {
        IoState { ram, ..self }
    }

    pub open spec fn with_vga(self, vga: Seq<bool>) -> IoState {
        IoState { vga, ..self }
    }

    pub open spec fn with_delay(self, delay_timer: u8) -> IoState {
        IoState { delay_timer, ..self }
    }

    pub open spec fn with_sound(self, sound_timer: u8) -> IoState {
        IoState { sound_timer, ..self }
    }
}

/// The pixel that bit `row` of sprite line `col` lands on, the sprite being
/// drawn at (`vx`, `vy`); coordinates wrap around the edges.
pub open spec fn pixel_index(vx: u8, vy: u8, col: int, row: int) -> int {
    (vx + row) % 64 + ((vy + col) % 32) * 64
}

/// Bit `row` of a sprite line, counted from the most significant bit.
pub open spec fn sprite_bit(line: u8, row: int) -> bool {
    (line >> ((7 - row) as u8)) & 1u8 == 1u8
}

/// Whether line `col`, bit `row` of the sprite at `index` is set and lands on
/// pixel `p`.
pub open spec fn hits(ram: Seq<u8>, index: u16, vx: u8, vy: u8, col: int, row: int, p: int) -> bool {
    &&& 0 <= row < 8
    &&& sprite_bit(ram[index + col], row)
    &&& pixel_index(vx, vy, col, row) == p
}

/// Whether an `n`-line sprite at `index`, drawn at (`vx`, `vy`), covers pixel `p`.
pub open spec fn covers(ram: Seq<u8>, index: u16, vx: u8, vy: u8, n: int, p: int) -> bool {
    exists|col: int, row: int| 0 <= col < n && #[trigger] hits(ram, index, vx, vy, col, row, p)
}

/// Whether the sprite covers a pixel that is lit in `vga`.
pub open spec fn collides(vga: Seq<bool>, ram: Seq<u8>, index: u16, vx: u8, vy: u8, n: int) -> bool {
    exists|col: int, row: int|
        0 <= col < n && 0 <= row < 8 && sprite_bit(ram[index + col], row)
            && #[trigger] vga[pixel_index(vx, vy, col, row)]
}

/// The display after an `n`-line sprite is drawn: each covered pixel flips.
pub open spec fn draw_vga(vga: Seq<bool>, ram: Seq<u8>, index: u16, vx: u8, vy: u8, n: int) -> Seq<bool> {
    Seq::new(2048, |p: int| vga[p] != covers(ram, index, vx, vy, n, p))
}

/// Whether sprite line `col` lies in memory and each of its set bits has
/// coordinates that fit in a byte before they wrap.
pub open spec fn line_ok(ram: Seq<u8>, index: u16, vx: u8, vy: u8, col: int) -> bool {
    &&& index + col < 4096
    &&& forall|row: int|
        0 <= row < 8 && #[trigger] sprite_bit(ram[index + col], row) ==> vx + row <= 255 && vy + col <= 255
}

/// Whether drawing an `n`-line sprite stays inside memory and inside byte
/// arithmetic.
pub open spec fn display_defined(ram: Seq<u8>, index: u16, vx: u8, vy: u8, n: int) -> bool {
    forall|col: int| 0 <= col < n ==> #[trigger] line_ok(ram, index, vx, vy, col)
}

/// The effect of DXYN on the processor and on memory and display.
pub open spec fn display_effect(cpu: CpuState, io: IoState, bytes: u16) -> (CpuState, IoState) {
    let vx = cpu.regs[op_x(bytes)];
    let vy = cpu.regs[op_y(bytes)];
    let n = op_n(bytes);
    let hit = collides(io.vga, io.ram, cpu.index, vx, vy, n);
    (
        cpu.with_reg(15, if hit { 1u8 } else { 0u8 }),
        io.with_vga(draw_vga(io.vga, io.ram, cpu.index, vx, vy, n)),
    )
}

/// Whether DXYN is defined on these states.
pub open spec fn display_ok(cpu: CpuState, io: IoState, bytes: u16) -> bool {
    display_defined(io.ram, cpu.index, cpu.regs[op_x(bytes)], cpu.regs[op_y(bytes)], op_n(bytes))
}

/// Lexicographic order on (line, bit) pairs.
pub open spec fn before(c1: int, r1: int, c2: int, r2: int) -> bool {
    c1 < c2 || (c1 == c2 && r1 < r2)
}

spec fn covered_before(ram: Seq<u8>, index: u16, vx: u8, vy: u8, cl: int, rl: int, p: int) -> bool {
    exists|col: int, row: int| 0 <= col && before(col, row, cl, rl) && #[trigger] hits(ram, index, vx, vy, col, row, p)
}

spec fn collided_before(vga: Seq<bool>, ram: Seq<u8>, index: u16, vx: u8, vy: u8, cl: int, rl: int) -> bool {
    exists|col: int, row: int|
        0 <= col && before(col, row, cl, rl) && 0 <= row < 8 && sprite_bit(ram[index + col], row)
            && #[trigger] vga[pixel_index(vx, vy, col, row)]
}

/// Distinct bits of a sprite of at most sixteen lines land on distinct pixels.
pub proof fn lemma_pixel_injective(vx: u8, vy: u8, c1: int, r1: int, c2: int, r2: int)
    requires
        0 <= c1 < 16,
        0 <= c2 < 16,
        0 <= r1 < 8,
        0 <= r2 < 8,
        pixel_index(vx, vy, c1, r1) == pixel_index(vx, vy, c2, r2),
    ensures
        c1 == c2,
        r1 == r2,
{
    let a1 = (vx + r1) % 64;
    let a2 = (vx + r2) % 64;
    let b1 = (vy + c1) % 32;
    let b2 = (vy + c2) % 32;
    assert(a1 == a2 && b1 == b2);
    assert(r1 == r2) by (nonlinear_arith)
        requires
            a1 == a2,
            a1 == (vx + r1) % 64,
            a2 == (vx + r2) % 64,
            0 <= r1 < 8,
            0 <= r2 < 8,
    ;
    assert(c1 == c2) by (nonlinear_arith)
        requires
            b1 == b2,
            b1 == (vy + c1) % 32,
            b2 == (vy + c2) % 32,
            0 <= c1 < 16,
            0 <= c2 < 16,
    ;
}


proof fn lemma_draw_set_bit(vga: Seq<bool>, ram: Seq<u8>, index: u16, vx: u8, vy: u8, col: int, row: int, loc: int)
    requires
        0 <= col < 16,
        0 <= row < 8,
        sprite_bit(ram[index + col], row),
        loc == pixel_index(vx, vy, col, row),
    ensures
        !covered_before(ram, index, vx, vy, col, row, loc),
        forall|p: int| covered_before(ram, index, vx, vy, col, row + 1, p)
            == (covered_before(ram, index, vx, vy, col, row, p) || p == loc),
        collided_before(vga, ram, index, vx, vy, col, row + 1)
            == (collided_before(vga, ram, index, vx, vy, col, row) || vga[loc]),
{
    if covered_before(ram, index, vx, vy, col, row, loc) {
        let (c, r) = choose|c: int, r: int| 0 <= c && before(c, r, col, row) && #[trigger] hits(ram, index, vx, vy, c, r, loc);
        lemma_pixel_injective(vx, vy, c, r, col, row);
    }
    assert(hits(ram, index, vx, vy, col, row, loc));
    assert forall|p: int| covered_before(ram, index, vx, vy, col, row + 1, p)
        == (covered_before(ram, index, vx, vy, col, row, p) || p == loc) by {
        if covered_before(ram, index, vx, vy, col, row + 1, p) {
            let (c, r) = choose|c: int, r: int| 0 <= c && before(c, r, col, row + 1) && #[trigger] hits(ram, index, vx, vy, c, r, p);
            if before(c, r, col, row) {
                assert(covered_before(ram, index, vx, vy, col, row, p));
            }
        }
        if covered_before(ram, index, vx, vy, col, row, p) {
            let (c, r) = choose|c: int, r: int| 0 <= c && before(c, r, col, row) && #[trigger] hits(ram, index, vx, vy, c, r, p);
            assert(before(c, r, col, row + 1));
        }
    }
    if vga[loc] {
        assert(vga[pixel_index(vx, vy, col, row)]);
    }
    if collided_before(vga, ram, index, vx, vy, col, row) {
        let (c, r) = choose|c: int, r: int| 0 <= c && before(c, r, col, row) && 0 <= r < 8 && sprite_bit(ram[index + c], r) && #[trigger] vga[pixel_index(vx, vy, c, r)];
        assert(before(c, r, col, row + 1));
    }
}

proof fn lemma_draw_clear_bit(vga: Seq<bool>, ram: Seq<u8>, index: u16, vx: u8, vy: u8, col: int, row: int)
    requires
        0 <= col,
        !sprite_bit(ram[index + col], row),
    ensures
        forall|p: int| covered_before(ram, index, vx, vy, col, row + 1, p)
            == covered_before(ram, index, vx, vy, col, row, p),
        collided_before(vga, ram, index, vx, vy, col, row + 1)
            == collided_before(vga, ram, index, vx, vy, col, row),
{
    assert forall|p: int| covered_before(ram, index, vx, vy, col, row + 1, p)
        == covered_before(ram, index, vx, vy, col, row, p) by {
        if covered_before(ram, index, vx, vy, col, row, p) {
            let (c, r) = choose|c: int, r: int| 0 <= c && before(c, r, col, row) && #[trigger] hits(ram, index, vx, vy, c, r, p);
            assert(before(c, r, col, row + 1));
        }
    }
    if collided_before(vga, ram, index, vx, vy, col, row) {
        let (c, r) = choose|c: int, r: int| 0 <= c && before(c, r, col, row) && 0 <= r < 8 && sprite_bit(ram[index + c], r) && #[trigger] vga[pixel_index(vx, vy, c, r)];
        assert(before(c, r, col, row + 1));
    }
}

proof fn lemma_draw_next_line(vga: Seq<bool>, ram: Seq<u8>, index: u16, vx: u8, vy: u8, col: int)
    ensures
        forall|p: int| covered_before(ram, index, vx, vy, col, 8, p)
            == covered_before(ram, index, vx, vy, col + 1, 0, p),
        collided_before(vga, ram, index, vx, vy, col, 8)
            == collided_before(vga, ram, index, vx, vy, col + 1, 0),
{
    assert forall|p: int| covered_before(ram, index, vx, vy, col, 8, p)
        == covered_before(ram, index, vx, vy, col + 1, 0, p) by {
        if covered_before(ram, index, vx, vy, col, 8, p) {
            let (c, r) = choose|c: int, r: int| 0 <= c && before(c, r, col, 8) && #[trigger] hits(ram, index, vx, vy, c, r, p);
            assert(before(c, r, col + 1, 0));
        }
        if covered_before(ram, index, vx, vy, col + 1, 0, p) {
            let (c, r) = choose|c: int, r: int| 0 <= c && before(c, r, col + 1, 0) && #[trigger] hits(ram, index, vx, vy, c, r, p);
            assert(before(c, r, col, 8));
        }
    }
    if collided_before(vga, ram, index, vx, vy, col, 8) {
        let (c, r) = choose|c: int, r: int| 0 <= c && before(c, r, col, 8) && 0 <= r < 8 && sprite_bit(ram[index + c], r) && #[trigger] vga[pixel_index(vx, vy, c, r)];
        assert(before(c, r, col + 1, 0));
    }
    if collided_before(vga, ram, index, vx, vy, col + 1, 0) {
        let (c, r) = choose|c: int, r: int| 0 <= c && before(c, r, col + 1, 0) && 0 <= r < 8 && sprite_bit(ram[index + c], r) && #[trigger] vga[pixel_index(vx, vy, c, r)];
        assert(before(c, r, col, 8));
    }
}

proof fn lemma_draw_done(vga: Seq<bool>, ram: Seq<u8>, index: u16, vx: u8, vy: u8, n: int)
    ensures
        forall|p: int| covered_before(ram, index, vx, vy, n, 0, p) == covers(ram, index, vx, vy, n, p),
        collided_before(vga, ram, index, vx, vy, n, 0) == collides(vga, ram, index, vx, vy, n),
{
    assert forall|p: int| covered_before(ram, index, vx, vy, n, 0, p) == covers(ram, index, vx, vy, n, p) by {
        if covered_before(ram, index, vx, vy, n, 0, p) {
            let (c, r) = choose|c: int, r: int| 0 <= c && before(c, r, n, 0) && #[trigger] hits(ram, index, vx, vy, c, r, p);
            assert(0 <= c < n && hits(ram, index, vx, vy, c, r, p));
        }
        if covers(ram, index, vx, vy, n, p) {
            let (c, r) = choose|c: int, r: int| 0 <= c < n && #[trigger] hits(ram, index, vx, vy, c, r, p);
            assert(before(c, r, n, 0));
        }
    }
    if collides(vga, ram, index, vx, vy, n) {
        let (c, r) = choose|c: int, r: int| 0 <= c < n && 0 <= r < 8 && sprite_bit(ram[index + c], r) && #[trigger] vga[pixel_index(vx, vy, c, r)];
        assert(before(c, r, n, 0));
    }
}

/// The state after the sound timer ticks: it counts down, stopping at zero.
pub open spec fn sound_tick(io: IoState) -> IoState {
    io.with_sound(if io.sound_timer > 0 { (io.sound_timer - 1) as u8 } else { 0u8 })
}

/// The dark display.
pub open spec fn dark_vga() -> Seq<bool> {
    Seq::new(2048, |p: int| false)
}

/// Memory after registers V0 to VX are stored from address `i` on.
pub open spec fn store_ram(ram: Seq<u8>, i: int, regs: Seq<u8>, x: int) -> Seq<u8> {
    Seq::new(ram.len(), |j: int| if i <= j <= i + x { regs[j - i] } else { ram[j] })
}

/// Registers after V0 to VX are loaded from address `i` on.
pub open spec fn load_regs(regs: Seq<u8>, i: int, ram: Seq<u8>, x: int) -> Seq<u8> {
    Seq::new(regs.len(), |k: int| if k <= x { ram[i + k] } else { regs[k] })
}

/// The three decimal digits of a byte, most significant first.
pub open spec fn bcd_ram(ram: Seq<u8>, i: int, v: u8) -> Seq<u8> {
    ram.update(i, v / 100).update(i + 1, (v % 100) / 10).update(i + 2, v % 10)
}

/// What an FX__ instruction asks of the caller.
#[derive(Clone, Copy, Debug, PartialEq, Eq, Structural)]
pub enum FxOutcome {
    /// The instruction was carried out.
    Done,
    /// F_3A: change the sound's playback rate; `pitch` is the value of VX.
    ChangeFrequency { rate: u16, pitch: u8 },
    /// The low byte names no FX__ instruction; nothing changed.
    Unknown,
}

/// Whether the low byte of an FX__ instruction names one.
pub open spec fn fx_known(bytes: u16) -> bool {
    let k = op_nn(bytes);
    k == 0x02 || k == 0x3a || k == 0x07 || k == 0x15 || k == 0x18 || k == 0x1e || k == 0x29
        || k == 0x33 || k == 0x55 || k == 0x65 || k == 0x0a
}

/// Whether an FX__ instruction stays inside memory and byte arithmetic.
pub open spec fn fx_ok(cpu: CpuState, io: IoState, bytes: u16) -> bool {
    let k = op_nn(bytes);
    let i = cpu.index as int;
    let x = op_x(bytes);
    &&& k == 0x02 ==> i + 1 < 4096
    &&& k == 0x3a ==> cpu.regs[x] >= 64
    &&& k == 0x33 ==> i + 2 < 4096
    &&& (k == 0x55 || k == 0x65) ==> i + x < 4096
}

/// The effect of an FX__ instruction; `keys` are the keypad's keys held down.
pub open spec fn fx_effect(cpu: CpuState, io: IoState, bytes: u16, keys: Seq<bool>) -> (CpuState, IoState) {
    let k = op_nn(bytes);
    let x = op_x(bytes);
    let vx = cpu.regs[x];
    let i = cpu.index;
    if k == 0x02 {
        (cpu, IoState { audio_pattern_buffer: word_of(io.ram[i as int], io.ram[i + 1]), ..io })
    } else if k == 0x07 {
        (cpu.with_reg(x, io.delay_timer), io)
    } else if k == 0x15 {
        (cpu, io.with_delay(vx))
    } else if k == 0x18 {
        (cpu, io.with_sound(vx))
    } else if k == 0x1e {
        (cpu.with_index(((i + vx) % 65536) as u16), io)
    } else if k == 0x29 {
        (cpu.with_index((vx * 5) as u16), io)
    } else if k == 0x33 {
        (cpu, io.with_ram(bcd_ram(io.ram, i as int, vx)))
    } else if k == 0x55 {
        (cpu.with_index((i + x + 1) as u16), io.with_ram(store_ram(io.ram, i as int, cpu.regs, x)))
    } else if k == 0x65 {
        (CpuState { regs: load_regs(cpu.regs, i as int, io.ram, x), ..cpu.with_index((i + x + 1) as u16) }, io)
    } else if k == 0x0a {
        (cpu.with_wait(!any_key_pressed(keys)), io)
    } else {
        (cpu, io)
    }
}

/// What an FX__ instruction asks of the caller.
pub open spec fn fx_outcome(cpu: CpuState, bytes: u16) -> FxOutcome {
    let k = op_nn(bytes);
    if k == 0x3a {
        FxOutcome::ChangeFrequency { rate: playback_rate(cpu.regs[op_x(bytes)]), pitch: cpu.regs[op_x(bytes)] }
    } else if fx_known(bytes) {
        FxOutcome::Done
    } else {
        FxOutcome::Unknown
    }
}

/// Whether the low byte of an EX__ instruction names one.
pub open spec fn key_known(bytes: u16) -> bool {
    op_nn(bytes) == 0x9e || op_nn(bytes) == 0xa1
}

/// The condition on which an EX__ instruction skips.
pub open spec fn key_skip(cpu: CpuState, bytes: u16, keys: Seq<bool>) -> bool {
    let pressed = keys[cpu.regs[op_x(bytes)] as int];
    if op_nn(bytes) == 0x9e { pressed } else { !pressed }
}

/// Whether an EX__ instruction names an existing key and can skip.
pub open spec fn key_ok(cpu: CpuState, bytes: u16, keys: Seq<bool>) -> bool {
    key_known(bytes) ==> cpu.regs[op_x(bytes)] < 16 && cpu.can_skip_if(key_skip(cpu, bytes, keys))
}

/// The effect of an EX__ instruction.
pub open spec fn key_effect(cpu: CpuState, bytes: u16, keys: Seq<bool>) -> CpuState {
    if key_known(bytes) {
        cpu.skip_if(key_skip(cpu, bytes, keys))
    } else {
        cpu
    }
}

/// Memory, display and timers of the interpreter. The sound itself is played
/// by the caller, which [`IOManager::sound_timer_check`] tells when to.
pub struct IOManager {
    pub ram: [u8; 4096],
    vga: [bool; 2048],
    delay_timer: u8,
    sound_timer: u8,
    pub audio_pattern_buffer: u16,
}

impl View for IOManager {
    type V = IoState;

    closed spec fn view(&self) -> IoState {
        IoState {
            ram: self.ram@,
            vga: self.vga@,
            delay_timer: self.delay_timer,
            sound_timer: self.sound_timer,
            audio_pattern_buffer: self.audio_pattern_buffer,
        }
    }
}

/// Memory always holds 4096 bytes and the display 2048 pixels.
pub broadcast proof fn lemma_io_sizes(io: &IOManager)
    ensures
        #[trigger] io@.ram.len() == 4096,
        io@.vga.len() == 2048,
{
}

/// The state just after power-on: the font at the start of memory, the rest
/// of memory zero, the display dark, the timers stopped.
pub open spec fn initial_io() -> IoState {
    IoState {
        ram: Seq::new(4096, |i: int| if i < 80 { SPRITES_DATA@[i] } else { 0u8 }),
        vga: Seq::new(2048, |i: int| false),
        delay_timer: 0,
        sound_timer: 0,
        audio_pattern_buffer: 0,
    }
}

impl IOManager {
    /// The byte at address `i`.
    pub fn read_ram(&self, i: usize) -> (r: u8)
        requires
            i < 4096,
        ensures
            r == self@.ram[i as int],
    {
        self.ram[i]
    }

    /// Replaces the sixteen-bit audio pattern.
    pub fn set_audio_pattern_buffer(&mut self, pattern: u16)
        ensures
            final(self)@ == (IoState { audio_pattern_buffer: pattern, ..old(self)@ }),
    {
        self.audio_pattern_buffer = pattern;
    }

    /// Whether pixel `i` (row after row) is lit.
    pub fn pixel(&self, i: usize) -> (r: bool)
        requires
            i < 2048,
        ensures
            r == self@.vga[i as int],
    {
        self.vga[i]
    }

    pub fn get_delay_timer(&self) -> (r: u8)
        ensures
            r == self@.delay_timer,
    {
        self.delay_timer
    }

    pub fn get_sound_timer(&self) -> (r: u8)
        ensures
            r == self@.sound_timer,
    {
        self.sound_timer
    }

    pub fn initialize() -> (r: IOManager)
        ensures
            r@ == initial_io(),
    {
        let mut ram_tmp = [0u8; 4096];
        let mut i: usize = 0;
        while i < 80
            invariant
                i <= 80,
                forall|j: int| 0 <= j < 4096 ==> #[trigger] ram_tmp@[j] == if j < i { SPRITES_DATA@[j] } else { 0u8 },
            decreases 80 - i,
        {
            ram_tmp[i] = SPRITES_DATA[i];
            i = i + 1;
        }
        let r = IOManager {
            ram: ram_tmp,
            vga: [false; 2048],
            delay_timer: 0,
            sound_timer: 0,
            audio_pattern_buffer: 0,
        };
        assert(r@.ram =~= initial_io().ram);
        assert(r@.vga =~= initial_io().vga);
        r
    }

    /// Whether DXYN can be carried out on these states: see [`display_defined`].
    pub fn display_allowed(&self, bytes: u16, cpu_manager: &CPUOpcodes) -> (r: bool)
        ensures
            r == display_ok(cpu_manager@, self@, bytes),
    {
        let vx = cpu_manager.get_values_register(field_x(bytes));
        let vy = cpu_manager.get_values_register(field_y(bytes));
        let n = field_n(bytes);
        let index = cpu_manager.get_index_register();
        let ghost ram = self@.ram;
        let mut col: u16 = 0;
        while col < n
            invariant
                n == op_n(bytes),
                n < 16,
                col <= n,
                ram == self@.ram,
                ram.len() == 4096,
                index == cpu_manager@.index,
                vx == cpu_manager@.regs[op_x(bytes)],
                vy == cpu_manager@.regs[op_y(bytes)],
                forall|c: int| 0 <= c < col ==> #[trigger] line_ok(ram, index, vx, vy, c),
            decreases n - col,
        {
            if index as usize + col as usize >= 4096 {
                assert(!line_ok(ram, index, vx, vy, col as int));
                return false;
            }
            let sprite = self.ram[index as usize + col as usize];
            let mut row: u8 = 0;
            while row < 8
                invariant
                    col < n,
                    n < 16,
                    row <= 8,
                    ram == self@.ram,
                    ram.len() == 4096,
                    index + col < 4096,
                    sprite == ram[index + col],
                    n == op_n(bytes),
                    index == cpu_manager@.index,
                    vx == cpu_manager@.regs[op_x(bytes)],
                    vy == cpu_manager@.regs[op_y(bytes)],
                    forall|c: int| 0 <= c < col ==> #[trigger] line_ok(ram, index, vx, vy, c),
                    forall|r: int| 0 <= r < row && #[trigger] sprite_bit(ram[index + col], r) ==> vx + r <= 255 && vy + col <= 255,
                decreases 8 - row,
            {
                let bit = (sprite >> (7 - row)) & 1;
                proof {
                    let sh: u8 = (7 - row) as u8;
                    assert(((sprite >> sh) & 1u8) != 0u8 ==> ((sprite >> sh) & 1u8) == 1u8) by (bit_vector);
                }
                if bit != 0 && (vx as u16 + row as u16 > 255 || vy as u16 + col > 255) {
                    assert(sprite_bit(ram[index + col], row as int));
                    assert(!line_ok(ram, index, vx, vy, col as int));
                    return false;
                }
                row = row + 1;
            }
            assert(line_ok(ram, index, vx, vy, col as int));
            col = col + 1;
        }
        true
    }

    /// DXYN: draw the N-line sprite at I at (VX, VY), flipping each covered
    /// pixel; VF becomes 1 when a lit pixel was flipped off, else 0.
    pub fn display(&mut self, bytes: u16, cpu_manager: &mut CPUOpcodes)
        requires
            display_ok(old(cpu_manager)@, old(self)@, bytes),
        ensures
            (final(cpu_manager)@, final(self)@) == display_effect(old(cpu_manager)@, old(self)@, bytes),
    {
        let vx_i = field_x(bytes);
        let vy_i = field_y(bytes);
        let n = field_n(bytes);
        let vx = cpu_manager.get_values_register(vx_i);
        let vy = cpu_manager.get_values_register(vy_i);
        cpu_manager.set_values_register(15, 0);
        let index = cpu_manager.get_index_register();
        let ghost io0 = self@;
        let ghost c0 = old(cpu_manager)@;
        let mut col: u16 = 0;
        while col < n
            invariant
                n == op_n(bytes),
                n < 16,
                col <= n,
                index == c0.index,
                c0.regs.len() == 16,
                io0.ram.len() == 4096,
                io0.vga.len() == 2048,
                vx == c0.regs[op_x(bytes)],
                vy == c0.regs[op_y(bytes)],
                io0 == old(self)@,
                display_defined(io0.ram, index, vx, vy, n as int),
                self@ == io0.with_vga(self@.vga),
                forall|p: int| 0 <= p < 2048 ==> #[trigger] self@.vga[p] == (io0.vga[p] != covered_before(io0.ram, index, vx, vy, col as int, 0, p)),
                cpu_manager@ == c0.with_reg(15, if collided_before(io0.vga, io0.ram, index, vx, vy, col as int, 0) { 1u8 } else { 0u8 }),
            decreases n - col,
        {
            assert(line_ok(io0.ram, index, vx, vy, col as int));
            let sprite = self.ram[index as usize + col as usize];
            let mut row: u8 = 0;
            while row < 8
                invariant
                    n == op_n(bytes),
                    n < 16,
                    col < n,
                    row <= 8,
                    index == c0.index,
                    c0.regs.len() == 16,
                    io0.ram.len() == 4096,
                    io0.vga.len() == 2048,
                    vx == c0.regs[op_x(bytes)],
                    vy == c0.regs[op_y(bytes)],
                    io0 == old(self)@,
                    sprite == io0.ram[index + col],
                    display_defined(io0.ram, index, vx, vy, n as int),
                    self@ == io0.with_vga(self@.vga),
                    forall|p: int| 0 <= p < 2048 ==> #[trigger] self@.vga[p] == (io0.vga[p] != covered_before(io0.ram, index, vx, vy, col as int, row as int, p)),
                    cpu_manager@ == c0.with_reg(15, if collided_before(io0.vga, io0.ram, index, vx, vy, col as int, row as int) { 1u8 } else { 0u8 }),
                decreases 8 - row,
            {
                let sprite_bit_value = (sprite >> (7 - row)) & 1;
                proof {
                    let sh: u8 = (7 - row) as u8;
                    assert(((sprite >> sh) & 1u8) != 0u8 ==> ((sprite >> sh) & 1u8) == 1u8) by (bit_vector);
                }
                if sprite_bit_value != 0 {
                    assert(sprite_bit(io0.ram[index + col], row as int));
                    assert(line_ok(io0.ram, index, vx, vy, col as int));
                    let x = (vx + row) % 64;
                    let y = (vy + col as u8) % 32;
                    let pixel_loc = x as usize + y as usize * 64;
                    proof {
                        lemma_draw_set_bit(io0.vga, io0.ram, index, vx, vy, col as int, row as int, pixel_loc as int);
                    }
                    assert(self@.vga[pixel_loc as int] == io0.vga[pixel_loc as int]);
                    self.vga[pixel_loc] = !self.vga[pixel_loc];
                    if !self.vga[pixel_loc] {
                        cpu_manager.set_values_register(15, 1);
                        assert(cpu_manager@.regs =~= c0.with_reg(15, 1u8).regs);
                    }
                } else {
                    proof {
                        lemma_draw_clear_bit(io0.vga, io0.ram, index, vx, vy, col as int, row as int);
                    }
                }
                row = row + 1;
            }
            proof {
                lemma_draw_next_line(io0.vga, io0.ram, index, vx, vy, col as int);
            }
            col = col + 1;
        }
        proof {
            lemma_draw_done(io0.vga, io0.ram, index, vx, vy, n as int);
        }
        assert(self@.vga =~= draw_vga(io0.vga, io0.ram, index, vx, vy, n as int));
    }

    /// Memory from `x` to `y`, for display.
    pub fn _get_ram_array(&self, x: usize, y: usize) -> (range: Vec<u8>)
        requires
            y < usize::MAX,
            x <= y ==> y < 4096,
        ensures
            x <= y ==> range@ == self@.ram.subrange(x as int, y + 1),
            x > y ==> range@.len() == 0,
            range@ == byte_range(self@.ram, x as int, y as int),
    {
        let mut range: Vec<u8> = Vec::new();
        let mut i = x;
        while i < y + 1
            invariant
                y < usize::MAX,
                x <= y ==> y < 4096,
                x <= y ==> x <= i <= y + 1,
                x > y ==> i == x,
                x <= y ==> range@ == self@.ram.subrange(x as int, i as int),
                x > y ==> range@.len() == 0,
            decreases y + 1 - i,
        {
            range.push(self.ram[i]);
            i = i + 1;
        }
        range
    }

    /// Counts the delay timer down by one, stopping at zero.
    pub fn dec_delay_timer(&mut self)
        ensures
            final(self)@ == old(self)@.with_delay(
                if old(self)@.delay_timer > 0 { (old(self)@.delay_timer - 1) as u8 } else { 0u8 },
            ),
    {
        if self.delay_timer > 0 {
            self.delay_timer = self.delay_timer - 1;
        }
    }

    /// Counts the sound timer down by one, stopping at zero. Returns whether
    /// the buzzer must sound (the timer was running) or be silent.
    pub fn sound_timer_check(&mut self) -> (play: bool)
        ensures
            play == (old(self)@.sound_timer > 0),
            final(self)@ == sound_tick(old(self)@),
    {
        if self.sound_timer > 0 {
            self.sound_timer = self.sound_timer - 1;
            true
        } else {
            false
        }
    }

    /// 00E0: turns every pixel off.
    pub fn clear_screen(&mut self)
        ensures
            final(self)@ == old(self)@.with_vga(dark_vga()),
    {
        let mut i: usize = 0;
        while i < 2048
            invariant
                i <= 2048,
                self@ == old(self)@.with_vga(self@.vga),
                forall|p: int| 0 <= p < i ==> !#[trigger] self@.vga[p],
            decreases 2048 - i,
        {
            self.vga[i] = false;
            i = i + 1;
        }
        assert(self@.vga =~= dark_vga());
    }

    /// The two bytes at `i` and `i + 1`; two zeros when `i` lies past memory.
    pub fn get_from_ram(&self, i: u16) -> (r: [u8; 2])
        requires
            i != 4095,
            i != u16::MAX,
        ensures
            i >= 4096 ==> r@ == seq![0u8, 0u8],
            i < 4096 ==> r@ == seq![self@.ram[i as int], self@.ram[i + 1]],
    {
        if i + 1 > 4096 {
            return [0, 0];
        }
        let r = [self.ram[i as usize], self.ram[i as usize + 1]];
        assert(r@ =~= seq![self@.ram[i as int], self@.ram[i + 1]]);
        r
    }

    /// Writes the two bytes of `word` at `i` and `i + 1`.
    pub fn put_into_ram(&mut self, word: [u8; 2], i: u16)
        requires
            i + 1 < 4096,
        ensures
            final(self)@ == old(self)@.with_ram(old(self)@.ram.update(i as int, word@[0]).update(i + 1, word@[1])),
    {
        self.ram[i as usize] = word[0];
        self.ram[i as usize + 1] = word[1];
    }

    /// FX__: timers, address register, memory transfers, key wait and the
    /// XO-CHIP sound instructions. `keys` are the keypad's keys held down.
    pub fn inst_fx_xx(&mut self, cpu_manager: &mut CPUOpcodes, bytes: u16, keys: &[bool; 16]) -> (r: FxOutcome)
        requires
            fx_ok(old(cpu_manager)@, old(self)@, bytes),
        ensures
            (final(cpu_manager)@, final(self)@) == fx_effect(old(cpu_manager)@, old(self)@, bytes, keys@),
            r == fx_outcome(old(cpu_manager)@, bytes),
    {
        let x = field_x(bytes);
        let sub = field_nn(bytes);
        let ghost c0 = cpu_manager@;
        let ghost io0 = self@;
        if sub == 0x02 {
            inst_f002(cpu_manager, self);
            FxOutcome::Done
        } else if sub == 0x3a {
            let rate = inst_fn3a(cpu_manager, x as u8);
            FxOutcome::ChangeFrequency { rate, pitch: cpu_manager.get_values_register(x) }
        } else if sub == 0x07 {
            cpu_manager.set_values_register(x, self.delay_timer);
            FxOutcome::Done
        } else if sub == 0x15 {
            self.delay_timer = cpu_manager.get_values_register(x);
            FxOutcome::Done
        } else if sub == 0x18 {
            self.sound_timer = cpu_manager.get_values_register(x);
            FxOutcome::Done
        } else if sub == 0x1e {
            let i = cpu_manager.get_index_register();
            let vx = cpu_manager.get_values_register(x) as u16;
            cpu_manager.set_index_register(i.wrapping_add(vx));
            FxOutcome::Done
        } else if sub == 0x29 {
            let vx = cpu_manager.get_values_register(x);
            cpu_manager.set_index_register(vx as u16 * 5);
            FxOutcome::Done
        } else if sub == 0x33 {
            let vx = cpu_manager.get_values_register(x);
            let first = vx / 100;
            let middle = (vx % 100) / 10;
            let last = vx % 10;
            let i = cpu_manager.get_index_register();
            self.ram[i as usize] = first;
            self.ram[i as usize + 1] = middle;
            self.ram[i as usize + 2] = last;
            assert(self@.ram =~= bcd_ram(io0.ram, i as int, vx));
            FxOutcome::Done
        } else if sub == 0x55 {
            let i = cpu_manager.get_index_register();
            let mut v_i: u16 = 0;
            while v_i <= x as u16
                invariant
                    x < 16,
                    v_i <= x + 1,
                    i == c0.index,
                    i + x < 4096,
                    c0.regs.len() == 16,
                    io0.ram.len() == 4096,
                    cpu_manager@ == c0.with_index((i + v_i) as u16),
                    self@ == io0.with_ram(self@.ram),
                    self@.ram.len() == 4096,
                    forall|j: int| 0 <= j < 4096 ==> #[trigger] self@.ram[j] == (if i <= j < i + v_i { c0.regs[j - i] } else { io0.ram[j] }),
                decreases x + 1 - v_i,
            {
                self.ram[(v_i + i) as usize] = cpu_manager.get_values_register(v_i as usize);
                let cur = cpu_manager.get_index_register();
                cpu_manager.set_index_register(cur + 1);
                v_i = v_i + 1;
            }
            assert(self@.ram =~= store_ram(io0.ram, i as int, c0.regs, x as int));
            FxOutcome::Done
        } else if sub == 0x65 {
            let i = cpu_manager.get_index_register();
            let mut v_i: u16 = 0;
            while v_i <= x as u16
                invariant
                    x < 16,
                    v_i <= x + 1,
                    i == c0.index,
                    i + x < 4096,
                    c0.regs.len() == 16,
                    io0.ram.len() == 4096,
                    self@ == io0,
                    cpu_manager@.regs.len() == 16,
                    cpu_manager@ == (CpuState { regs: cpu_manager@.regs, ..c0.with_index((i + v_i) as u16) }),
                    forall|k: int| 0 <= k < 16 ==> #[trigger] cpu_manager@.regs[k] == (if k < v_i { io0.ram[i + k] } else { c0.regs[k] }),
                decreases x + 1 - v_i,
            {
                let byte = self.ram[(v_i + i) as usize];
                cpu_manager.set_values_register(v_i as usize, byte);
                let cur = cpu_manager.get_index_register();
                cpu_manager.set_index_register(cur + 1);
                v_i = v_i + 1;
            }
            assert(cpu_manager@.regs =~= load_regs(c0.regs, i as int, io0.ram, x as int));
            FxOutcome::Done
        } else if sub == 0x0a {
            cpu_manager.set_wait_control(true);
            let mut k: usize = 0;
            while k < 16
                invariant
                    k <= 16,
                    cpu_manager@ == c0.with_wait(!(exists|j: int| 0 <= j < k && #[trigger] keys@[j])),
                decreases 16 - k,
            {
                if Inputs::check_scancode(keys, k as u8) {
                    cpu_manager.set_wait_control(false);
                }
                k = k + 1;
            }
            FxOutcome::Done
        } else {
            FxOutcome::Unknown
        }
    }

    /// EX9E and EXA1: skip the next instruction when the key in VX is held
    /// down, or when it is not. Returns whether the low byte names one of the
    /// two; when it does not, nothing changes.
    pub fn ex_skip_key(&self, bytes: u16, cpu_manager: &mut CPUOpcodes, keys: &[bool; 16]) -> (known: bool)
        requires
            key_ok(old(cpu_manager)@, bytes, keys@),
        ensures
            known == key_known(bytes),
            final(cpu_manager)@ == key_effect(old(cpu_manager)@, bytes, keys@),
    {
        let x = field_x(bytes);
        let vx = cpu_manager.get_values_register(x);
        let sub = field_nn(bytes);
        if sub == 0x9e {
            if Inputs::check_scancode(keys, vx) {
                cpu_manager.inc_pc();
            }
            true
        } else if sub == 0xa1 {
            if !Inputs::check_scancode(keys, vx) {
                cpu_manager.inc_pc();
            }
            true
        } else {
            false
        }
    }
}

} // verus!
