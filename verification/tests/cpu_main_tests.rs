use chip8_emu::cpu_main::{check_error, cycle, decode, fetch, load_program, Step};
use chip8_emu::cpu_opcodes::CPUOpcodes;
use chip8_emu::inputs::Inputs;
use chip8_emu::io_manager::IOManager;

const NO_KEYS: [bool; 16] = [false; 16];

fn machine() -> (IOManager, CPUOpcodes) {
    (IOManager::initialize(), CPUOpcodes::initialize())
}

#[test]
fn load_program_places_image_at_0x200() {
    let (mut io, _) = machine();
    load_program(&mut io, &[1, 2, 3]);
    assert_eq!(&io.ram[0x1fe..0x205], &[0, 0, 1, 2, 3, 0, 0][..7]);
    assert_eq!(&io.ram[0..5], &[0xF0, 0x90, 0x90, 0x90, 0xF0]);
    io.ram[4000] = 9;
    load_program(&mut io, &[7]);
    assert_eq!(io.ram[0x200], 7);
    assert_eq!(io.ram[0x201], 0);
    assert_eq!(io.ram[4000], 0);
}

#[test]
fn load_program_cuts_at_end_of_memory() {
    let (mut io, _) = machine();
    let rom: Vec<u8> = (0..4000u32).map(|i| (i % 251) as u8 + 1).collect();
    load_program(&mut io, &rom);
    assert_eq!(io.ram[4095], rom[4095 - 512]);
    assert_eq!(io.ram[0x200], rom[0]);
}

#[test]
fn check_error_flags_zero_word() {
    assert!(check_error(0));
    assert!(!check_error(0x0100));
}

#[test]
fn fetch_reads_big_endian_word() {
    let (mut io, mut cpu) = machine();
    load_program(&mut io, &[0x12, 0x34, 0x56, 0x78]);
    assert_eq!(fetch(&mut io, &mut cpu), 0x1234);
    assert_eq!(cpu.get_pc(), 0x202);
    assert_eq!(fetch(&mut io, &mut cpu), 0x5678);
    cpu.set_pc(4096);
    assert_eq!(fetch(&mut io, &mut cpu), 0);
    assert_eq!(cpu.get_pc(), 4098);
}

#[test]
fn decode_outcomes() {
    let (mut io, mut cpu) = machine();
    assert_eq!(decode(0x0000, &mut io, &mut cpu, &NO_KEYS), Step::Halt);
    assert_eq!(decode(0x0100, &mut io, &mut cpu, &NO_KEYS), Step::Continue);
    assert_eq!(decode(0x00e0, &mut io, &mut cpu, &NO_KEYS), Step::ClearScreen);
    assert_eq!(decode(0x00ee, &mut io, &mut cpu, &NO_KEYS), Step::Continue);
    assert_eq!(decode(0x00ff, &mut io, &mut cpu, &NO_KEYS), Step::UnknownSystem(0x00ff));
    assert_eq!(decode(0x812f, &mut io, &mut cpu, &NO_KEYS), Step::UnknownArithmetic(0xf));
    assert_eq!(decode(0xd005, &mut io, &mut cpu, &NO_KEYS), Step::Draw);
    assert_eq!(decode(0xe1ff, &mut io, &mut cpu, &NO_KEYS), Step::UnknownKey(0xe1ff));
    assert_eq!(decode(0xf1ff, &mut io, &mut cpu, &NO_KEYS), Step::UnknownMisc(0xf1ff));
    assert_eq!(decode(0xb123, &mut io, &mut cpu, &NO_KEYS), Step::UnknownFamily(0xb));
    assert_eq!(decode(0xc1ff, &mut io, &mut cpu, &NO_KEYS), Step::UnknownFamily(0xc));
    assert_eq!(decode(0x6140, &mut io, &mut cpu, &NO_KEYS), Step::Continue);
    assert_eq!(decode(0xf13a, &mut io, &mut cpu, &NO_KEYS), Step::ChangeFrequency { rate: 8000, pitch: 64 });
}

#[test]
fn decode_faults_where_arithmetic_would_overflow() {
    let (mut io, mut cpu) = machine();
    cpu.set_index_register(4095);
    assert_eq!(decode(0xf033, &mut io, &mut cpu, &NO_KEYS), Step::Fault);
    assert_eq!(decode(0xf002, &mut io, &mut cpu, &NO_KEYS), Step::Fault);
    assert_eq!(decode(0xd002, &mut io, &mut cpu, &NO_KEYS), Step::Fault);
    assert_eq!(decode(0xf13a, &mut io, &mut cpu, &NO_KEYS), Step::Fault);
    cpu.set_index_register(4090);
    assert_eq!(decode(0xf555, &mut io, &mut cpu, &NO_KEYS), Step::Continue);
    assert_eq!(decode(0xf655, &mut io, &mut cpu, &NO_KEYS), Step::Fault);
    cpu.set_values_register(1, 16);
    assert_eq!(decode(0xe19e, &mut io, &mut cpu, &NO_KEYS), Step::Fault);
    cpu.set_pc(0xfffe);
    assert_eq!(decode(0x3000, &mut io, &mut cpu, &NO_KEYS), Step::Fault);
    assert_eq!(cpu.get_pc(), 0xfffe);
    assert_eq!(decode(0x3001, &mut io, &mut cpu, &NO_KEYS), Step::Continue);
    assert_eq!(cpu.get_pc(), 0xfffe);
}

#[test]
fn cycle_runs_a_program() {
    let (mut io, mut cpu) = machine();
    // V0 := 5; V0 += 3; I := 0x300; store V0; jump to 0x208
    load_program(&mut io, &[0x60, 0x05, 0x70, 0x03, 0xa3, 0x00, 0xf0, 0x55, 0x12, 0x08]);
    let mut word: u16 = 0;
    for _ in 0..5 {
        assert_eq!(cycle(&mut io, &mut cpu, &mut word, &NO_KEYS), Step::Continue);
    }
    assert_eq!(word, 0x1208);
    assert_eq!(cpu.get_values_register(0), 8);
    assert_eq!(io.ram[0x300], 8);
    assert_eq!(cpu.get_index_register(), 0x301);
    assert_eq!(cpu.get_pc(), 0x208);
}

#[test]
fn cycle_waits_for_key_and_counts_delay_down() {
    let (mut io, mut cpu) = machine();
    // V1 := 3; delay := V1; wait for a key
    load_program(&mut io, &[0x61, 0x03, 0xf1, 0x15, 0xf0, 0x0a]);
    let mut word: u16 = 0;
    for _ in 0..3 {
        cycle(&mut io, &mut cpu, &mut word, &NO_KEYS);
    }
    assert!(cpu.get_wait_control());
    assert_eq!(io.get_delay_timer(), 3);
    cycle(&mut io, &mut cpu, &mut word, &NO_KEYS);
    assert_eq!(io.get_delay_timer(), 2);
    assert_eq!(cpu.get_pc(), 0x206);
    assert_eq!(word, 0xf00a);
    let mut keys = NO_KEYS;
    keys[0xb] = true;
    cycle(&mut io, &mut cpu, &mut word, &keys);
    assert!(!cpu.get_wait_control());
    assert_eq!(io.get_delay_timer(), 1);
}

#[test]
fn cycle_halts_on_zero_word_and_faults_at_end_of_memory() {
    let (mut io, mut cpu) = machine();
    let mut word: u16 = 0;
    assert_eq!(cycle(&mut io, &mut cpu, &mut word, &NO_KEYS), Step::Halt);
    cpu.set_pc(4095);
    word = 0x1234;
    assert_eq!(cycle(&mut io, &mut cpu, &mut word, &NO_KEYS), Step::Fault);
    assert_eq!(word, 0x1234);
    assert_eq!(cpu.get_pc(), 4095);
}

#[test]
fn inputs_decisions() {
    assert!(Inputs::check(true, true));
    assert!(!Inputs::check(false, true));
    assert!(!Inputs::check(true, false));
    let mut keys = [false; 16];
    keys[4] = true;
    assert!(Inputs::is_keystate(&keys, true, 4));
    assert!(!Inputs::is_keystate(&keys, false, 4));
    assert!(Inputs::is_keystate(&keys, false, 5));
    assert!(Inputs::check_scancode(&keys, 4));
    assert!(!Inputs::check_scancode(&keys, 0));
}
