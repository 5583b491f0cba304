use chip8_emu::constants::SPRITES_DATA;
use chip8_emu::cpu_opcodes::CPUOpcodes;
use chip8_emu::io_manager::{FxOutcome, IOManager};
use chip8_emu::xo_chip_extended::{inst_f002, inst_fn3a};

const NO_KEYS: [bool; 16] = [false; 16];

fn lit_pixels(io: &IOManager) -> Vec<usize> {
    (0..2048).filter(|&i| io.pixel(i)).collect()
}

#[test]
fn initialize_loads_font() {
    let io = IOManager::initialize();
    assert_eq!(&io.ram[0..80], &SPRITES_DATA[..]);
    assert_eq!(&io.ram[0..5], &[0xF0, 0x90, 0x90, 0x90, 0xF0]);
    assert!(io.ram[80..].iter().all(|&b| b == 0));
    assert!(lit_pixels(&io).is_empty());
    assert_eq!(io.get_delay_timer(), 0);
    assert_eq!(io.get_sound_timer(), 0);
    assert_eq!(io.audio_pattern_buffer, 0);
}

#[test]
fn draw_digit_zero_at_origin() {
    let mut io = IOManager::initialize();
    let mut cpu = CPUOpcodes::initialize();
    cpu.set_index_register(0);
    assert!(io.display_allowed(0xd015, &cpu));
    io.display(0xd015, &mut cpu);
    // 0xF0, 0x90, 0x90, 0x90, 0xF0
    let expected: Vec<usize> = vec![
        0, 1, 2, 3,
        64, 67,
        128, 131,
        192, 195,
        256, 257, 258, 259,
    ];
    assert_eq!(lit_pixels(&io), expected);
    assert_eq!(cpu.get_values_register(0xf), 0);
}

#[test]
fn draw_twice_restores_and_reports_collision() {
    let mut io = IOManager::initialize();
    let mut cpu = CPUOpcodes::initialize();
    cpu.set_values_register(1, 10);
    cpu.set_values_register(2, 7);
    cpu.set_index_register(5 * 8);
    io.display(0xd125, &mut cpu);
    assert_eq!(cpu.get_values_register(0xf), 0);
    assert!(!lit_pixels(&io).is_empty());
    io.display(0xd125, &mut cpu);
    assert_eq!(cpu.get_values_register(0xf), 1);
    assert!(lit_pixels(&io).is_empty());
}

#[test]
fn draw_wraps_around_edges() {
    let mut io = IOManager::initialize();
    let mut cpu = CPUOpcodes::initialize();
    io.ram[0x300] = 0xff;
    cpu.set_index_register(0x300);
    cpu.set_values_register(1, 60);
    cpu.set_values_register(2, 31);
    io.display(0xd121, &mut cpu);
    let row = 31 * 64;
    assert_eq!(lit_pixels(&io), vec![row, row + 1, row + 2, row + 3, row + 60, row + 61, row + 62, row + 63]);
}

#[test]
fn draw_zero_lines_clears_flag_only() {
    let mut io = IOManager::initialize();
    let mut cpu = CPUOpcodes::initialize();
    cpu.set_values_register(0xf, 1);
    io.display(0xd120, &mut cpu);
    assert_eq!(cpu.get_values_register(0xf), 0);
    assert!(lit_pixels(&io).is_empty());
}

#[test]
fn display_allowed_checks_byte_range_of_set_bits() {
    let mut io = IOManager::initialize();
    let mut cpu = CPUOpcodes::initialize();
    io.ram[0x300] = 0x80;
    cpu.set_index_register(0x300);
    cpu.set_values_register(1, 250);
    assert!(io.display_allowed(0xd101, &cpu));
    io.ram[0x300] = 0xff;
    assert!(!io.display_allowed(0xd101, &cpu));
    cpu.set_index_register(4095);
    assert!(io.display_allowed(0xd001, &cpu));
    assert!(!io.display_allowed(0xd002, &cpu));
}

#[test]
fn clear_screen_darkens() {
    let mut io = IOManager::initialize();
    let mut cpu = CPUOpcodes::initialize();
    io.display(0xd005, &mut cpu);
    io.clear_screen();
    assert!(lit_pixels(&io).is_empty());
    io.display(0xd005, &mut cpu);
    assert_eq!(cpu.get_values_register(0xf), 0);
}

#[test]
fn ram_access() {
    let mut io = IOManager::initialize();
    io.put_into_ram([0x12, 0x34], 0x200);
    assert_eq!(io.get_from_ram(0x200), [0x12, 0x34]);
    assert_eq!(io.read_ram(0x201), 0x34);
    assert_eq!(io.get_from_ram(4096), [0, 0]);
    assert_eq!(io.get_from_ram(0xfffe), [0, 0]);
    assert_eq!(io._get_ram_array(0x200, 0x201), vec![0x12, 0x34]);
    assert_eq!(io._get_ram_array(3, 2), Vec::<u8>::new());
}

#[test]
fn timers_count_down_to_zero() {
    let mut io = IOManager::initialize();
    let mut cpu = CPUOpcodes::initialize();
    cpu.set_values_register(0, 2);
    assert_eq!(io.inst_fx_xx(&mut cpu, 0xf015, &NO_KEYS), FxOutcome::Done);
    assert_eq!(io.inst_fx_xx(&mut cpu, 0xf018, &NO_KEYS), FxOutcome::Done);
    io.dec_delay_timer();
    assert_eq!(io.get_delay_timer(), 1);
    io.dec_delay_timer();
    io.dec_delay_timer();
    assert_eq!(io.get_delay_timer(), 0);
    assert!(io.sound_timer_check());
    assert!(io.sound_timer_check());
    assert!(!io.sound_timer_check());
    assert_eq!(io.get_sound_timer(), 0);
}

#[test]
fn read_delay_timer() {
    let mut io = IOManager::initialize();
    let mut cpu = CPUOpcodes::initialize();
    cpu.set_values_register(3, 77);
    io.inst_fx_xx(&mut cpu, 0xf315, &NO_KEYS);
    io.inst_fx_xx(&mut cpu, 0xf407, &NO_KEYS);
    assert_eq!(cpu.get_values_register(4), 77);
}

#[test]
fn add_to_index_wraps() {
    let mut io = IOManager::initialize();
    let mut cpu = CPUOpcodes::initialize();
    cpu.set_index_register(0xfffe);
    cpu.set_values_register(1, 3);
    io.inst_fx_xx(&mut cpu, 0xf11e, &NO_KEYS);
    assert_eq!(cpu.get_index_register(), 1);
}

#[test]
fn font_address_points_at_glyph() {
    let mut io = IOManager::initialize();
    let mut cpu = CPUOpcodes::initialize();
    cpu.set_values_register(2, 0xa);
    io.inst_fx_xx(&mut cpu, 0xf229, &NO_KEYS);
    let i = cpu.get_index_register() as usize;
    assert_eq!(i, 50);
    assert_eq!(&io.ram[i..i + 5], &[0xF0, 0x90, 0xF0, 0x90, 0x90]);
}

#[test]
fn bcd_writes_decimal_digits() {
    let mut io = IOManager::initialize();
    let mut cpu = CPUOpcodes::initialize();
    cpu.set_index_register(0x300);
    cpu.set_values_register(5, 254);
    io.inst_fx_xx(&mut cpu, 0xf533, &NO_KEYS);
    assert_eq!(&io.ram[0x300..0x303], &[2, 5, 4]);
    assert_eq!(cpu.get_index_register(), 0x300);
}

#[test]
fn store_then_load_registers() {
    let mut io = IOManager::initialize();
    let mut cpu = CPUOpcodes::initialize();
    for i in 0..16 {
        cpu.set_values_register(i, (i as u8) * 3 + 1);
    }
    cpu.set_index_register(0x400);
    io.inst_fx_xx(&mut cpu, 0xf355, &NO_KEYS);
    assert_eq!(cpu.get_index_register(), 0x404);
    assert_eq!(&io.ram[0x400..0x405], &[1, 4, 7, 10, 0]);
    for i in 0..4 {
        cpu.set_values_register(i, 0);
    }
    cpu.set_index_register(0x400);
    io.inst_fx_xx(&mut cpu, 0xf365, &NO_KEYS);
    assert_eq!(cpu.get_index_register(), 0x404);
    for i in 0..16 {
        assert_eq!(cpu.get_values_register(i), (i as u8) * 3 + 1);
    }
}

#[test]
fn wait_for_key() {
    let mut io = IOManager::initialize();
    let mut cpu = CPUOpcodes::initialize();
    io.inst_fx_xx(&mut cpu, 0xf00a, &NO_KEYS);
    assert!(cpu.get_wait_control());
    let mut keys = NO_KEYS;
    keys[9] = true;
    io.inst_fx_xx(&mut cpu, 0xf00a, &keys);
    assert!(!cpu.get_wait_control());
}

#[test]
fn audio_pattern_and_pitch() {
    let mut io = IOManager::initialize();
    let mut cpu = CPUOpcodes::initialize();
    io.ram[0x300] = 0xab;
    io.ram[0x301] = 0xcd;
    cpu.set_index_register(0x300);
    assert_eq!(io.inst_fx_xx(&mut cpu, 0xf002, &NO_KEYS), FxOutcome::Done);
    assert_eq!(io.audio_pattern_buffer, 0xabcd);
    cpu.set_values_register(1, 64);
    assert_eq!(io.inst_fx_xx(&mut cpu, 0xf13a, &NO_KEYS), FxOutcome::ChangeFrequency { rate: 8000, pitch: 64 });
    cpu.set_values_register(1, 255);
    assert_eq!(inst_fn3a(&cpu, 1), 8003);
    io.ram[0x300] = 0x01;
    inst_f002(&cpu, &mut io);
    assert_eq!(io.audio_pattern_buffer, 0x01cd);
}

#[test]
fn unknown_fx_changes_nothing() {
    let mut io = IOManager::initialize();
    let mut cpu = CPUOpcodes::initialize();
    assert_eq!(io.inst_fx_xx(&mut cpu, 0xf1ff, &NO_KEYS), FxOutcome::Unknown);
    assert_eq!(cpu.get_index_register(), 0);
}

#[test]
fn skip_on_key() {
    let io = IOManager::initialize();
    let mut cpu = CPUOpcodes::initialize();
    let mut keys = NO_KEYS;
    keys[5] = true;
    cpu.set_values_register(1, 5);
    assert!(io.ex_skip_key(0xe19e, &mut cpu, &keys));
    assert_eq!(cpu.get_pc(), 514);
    assert!(io.ex_skip_key(0xe1a1, &mut cpu, &keys));
    assert_eq!(cpu.get_pc(), 514);
    assert!(io.ex_skip_key(0xe1a1, &mut cpu, &NO_KEYS));
    assert_eq!(cpu.get_pc(), 516);
    assert!(!io.ex_skip_key(0xe1ff, &mut cpu, &keys));
    assert_eq!(cpu.get_pc(), 516);
}
