use chip8_emu::cpu_opcodes::CPUOpcodes;

fn regs(cpu: &CPUOpcodes) -> Vec<u8> {
    (0..16).map(|i| cpu.get_values_register(i)).collect()
}

#[test]
fn initialize_starts_at_program_address() {
    let cpu = CPUOpcodes::initialize();
    assert_eq!(cpu.get_pc(), 512);
    assert_eq!(cpu.get_index_register(), 0);
    assert!(!cpu.get_wait_control());
    assert_eq!(regs(&cpu), vec![0u8; 16]);
}

#[test]
fn getters_and_setters() {
    let mut cpu = CPUOpcodes::initialize();
    cpu.set_values_register(3, 42);
    cpu.set_index_register(0x321);
    cpu.set_wait_control(true);
    cpu.set_pc(0x400);
    assert_eq!(cpu.get_values_register(3), 42);
    assert_eq!(cpu.get_index_register(), 0x321);
    assert!(cpu.get_wait_control());
    assert_eq!(cpu.get_pc(), 0x400);
    cpu.inc_pc();
    assert_eq!(cpu.get_pc(), 0x402);
}

#[test]
fn jump_takes_low_twelve_bits() {
    let mut cpu = CPUOpcodes::initialize();
    cpu.inst_1nnn(0x1abc);
    assert_eq!(cpu.get_pc(), 0xabc);
}

#[test]
fn call_then_return_restores_pc() {
    let mut cpu = CPUOpcodes::initialize();
    cpu.set_pc(0x246);
    cpu.inst_2nnn(0x2300);
    assert_eq!(cpu.get_pc(), 0x300);
    cpu.inst_2nnn(0x2500);
    assert_eq!(cpu.get_pc(), 0x500);
    cpu.inst_00ee();
    assert_eq!(cpu.get_pc(), 0x300);
    cpu.inst_00ee();
    assert_eq!(cpu.get_pc(), 0x246);
}

#[test]
fn return_on_empty_stack_does_nothing() {
    let mut cpu = CPUOpcodes::initialize();
    cpu.inst_00ee();
    assert_eq!(cpu.get_pc(), 512);
}

#[test]
fn skip_if_equal_immediate() {
    let mut cpu = CPUOpcodes::initialize();
    cpu.set_values_register(2, 0x33);
    cpu.inst_3xnn(0x3233);
    assert_eq!(cpu.get_pc(), 514);
    cpu.inst_3xnn(0x3234);
    assert_eq!(cpu.get_pc(), 514);
}

#[test]
fn skip_if_not_equal_immediate() {
    let mut cpu = CPUOpcodes::initialize();
    cpu.set_values_register(2, 0x33);
    cpu.inst_4xnn(0x4233);
    assert_eq!(cpu.get_pc(), 512);
    cpu.inst_4xnn(0x4234);
    assert_eq!(cpu.get_pc(), 514);
}

#[test]
fn skip_complement_exactly_one_skips() {
    for nn in [0x10u16, 0x11] {
        let mut a = CPUOpcodes::initialize();
        let mut b = CPUOpcodes::initialize();
        a.set_values_register(1, 0x10);
        b.set_values_register(1, 0x10);
        a.inst_3xnn(0x3100 | nn);
        b.inst_4xnn(0x4100 | nn);
        assert_ne!(a.get_pc() == 512, b.get_pc() == 512);
    }
}

#[test]
fn skip_on_register_equality() {
    let mut cpu = CPUOpcodes::initialize();
    cpu.set_values_register(1, 7);
    cpu.set_values_register(2, 7);
    cpu.inst_5xy0(0x5120);
    assert_eq!(cpu.get_pc(), 514);
    cpu.inst_9xy0(0x9120);
    assert_eq!(cpu.get_pc(), 514);
    cpu.set_values_register(2, 8);
    cpu.inst_9xy0(0x9120);
    assert_eq!(cpu.get_pc(), 516);
    cpu.inst_5xy0(0x5120);
    assert_eq!(cpu.get_pc(), 516);
}

#[test]
fn load_and_add_immediate_wraps() {
    let mut cpu = CPUOpcodes::initialize();
    cpu.inst_6xnn(0x6aff);
    assert_eq!(cpu.get_values_register(0xa), 0xff);
    cpu.inst_7xnn(0x7a02);
    assert_eq!(cpu.get_values_register(0xa), 1);
    assert_eq!(cpu.get_values_register(0xf), 0);
}

#[test]
fn alu_logic_operations() {
    let mut cpu = CPUOpcodes::initialize();
    cpu.set_values_register(1, 0b1100);
    cpu.set_values_register(2, 0b1010);
    assert!(cpu.inst_8xy_x(0x8121));
    assert_eq!(cpu.get_values_register(1), 0b1110);
    cpu.set_values_register(1, 0b1100);
    assert!(cpu.inst_8xy_x(0x8122));
    assert_eq!(cpu.get_values_register(1), 0b1000);
    cpu.set_values_register(1, 0b1100);
    assert!(cpu.inst_8xy_x(0x8123));
    assert_eq!(cpu.get_values_register(1), 0b0110);
    assert!(cpu.inst_8xy_x(0x8120));
    assert_eq!(cpu.get_values_register(1), 0b1010);
}

#[test]
fn add_sets_carry() {
    let mut cpu = CPUOpcodes::initialize();
    cpu.set_values_register(1, 200);
    cpu.set_values_register(2, 100);
    assert!(cpu.inst_8xy_x(0x8124));
    assert_eq!(cpu.get_values_register(1), 44);
    assert_eq!(cpu.get_values_register(0xf), 1);
    assert_eq!(256 * cpu.get_values_register(0xf) as u32 + cpu.get_values_register(1) as u32, 300);
    cpu.set_values_register(1, 20);
    assert!(cpu.inst_8xy_x(0x8124));
    assert_eq!(cpu.get_values_register(1), 120);
    assert_eq!(cpu.get_values_register(0xf), 0);
}

#[test]
fn add_into_vf_keeps_flag() {
    let mut cpu = CPUOpcodes::initialize();
    cpu.set_values_register(0xf, 200);
    cpu.set_values_register(2, 100);
    assert!(cpu.inst_8xy_x(0x8f24));
    assert_eq!(cpu.get_values_register(0xf), 1);
}

#[test]
fn subtract_flags_strictly_greater() {
    let mut cpu = CPUOpcodes::initialize();
    cpu.set_values_register(1, 5);
    cpu.set_values_register(2, 5);
    assert!(cpu.inst_8xy_x(0x8125));
    assert_eq!(cpu.get_values_register(1), 0);
    assert_eq!(cpu.get_values_register(0xf), 0);
    cpu.set_values_register(1, 3);
    assert!(cpu.inst_8xy_x(0x8125));
    assert_eq!(cpu.get_values_register(1), 254);
    assert_eq!(cpu.get_values_register(0xf), 0);
    cpu.set_values_register(1, 9);
    assert!(cpu.inst_8xy_x(0x8125));
    assert_eq!(cpu.get_values_register(1), 4);
    assert_eq!(cpu.get_values_register(0xf), 1);
}

#[test]
fn subtract_then_add_restores() {
    let mut cpu = CPUOpcodes::initialize();
    cpu.set_values_register(1, 3);
    cpu.set_values_register(2, 250);
    assert!(cpu.inst_8xy_x(0x8125));
    assert!(cpu.inst_8xy_x(0x8124));
    assert_eq!(cpu.get_values_register(1), 3);
}

#[test]
fn reverse_subtract() {
    let mut cpu = CPUOpcodes::initialize();
    cpu.set_values_register(1, 3);
    cpu.set_values_register(2, 10);
    assert!(cpu.inst_8xy_x(0x8127));
    assert_eq!(cpu.get_values_register(1), 7);
    assert_eq!(cpu.get_values_register(0xf), 1);
    cpu.set_values_register(1, 10);
    cpu.set_values_register(2, 3);
    assert!(cpu.inst_8xy_x(0x8127));
    assert_eq!(cpu.get_values_register(1), 249);
    assert_eq!(cpu.get_values_register(0xf), 0);
}

#[test]
fn shifts_take_vy_and_flag() {
    let mut cpu = CPUOpcodes::initialize();
    cpu.set_values_register(2, 0b1000_0011);
    assert!(cpu.inst_8xy_x(0x8126));
    assert_eq!(cpu.get_values_register(1), 0b0100_0001);
    assert_eq!(cpu.get_values_register(0xf), 1);
    assert!(cpu.inst_8xy_x(0x812e));
    assert_eq!(cpu.get_values_register(1), 0b0000_0110);
    assert_eq!(cpu.get_values_register(0xf), 0x80);
    cpu.set_values_register(2, 0b0100_0010);
    assert!(cpu.inst_8xy_x(0x812e));
    assert_eq!(cpu.get_values_register(0xf), 0);
    assert!(cpu.inst_8xy_x(0x8126));
    assert_eq!(cpu.get_values_register(0xf), 0);
}

#[test]
fn unknown_alu_operation_changes_nothing() {
    let mut cpu = CPUOpcodes::initialize();
    cpu.set_values_register(1, 1);
    cpu.set_values_register(2, 2);
    assert!(!cpu.inst_8xy_x(0x8128));
    assert_eq!(cpu.get_values_register(1), 1);
    assert_eq!(cpu.get_values_register(2), 2);
}

#[test]
fn set_index_register() {
    let mut cpu = CPUOpcodes::initialize();
    cpu.inst_annn(0xa123);
    assert_eq!(cpu.get_index_register(), 0x123);
}

#[test]
fn random_is_masked() {
    let mut cpu = CPUOpcodes::initialize();
    cpu.set_values_register(4, 0xff);
    cpu.inst_cxnn(0xc400);
    assert_eq!(cpu.get_values_register(4), 0);
    for _ in 0..20 {
        cpu.inst_cxnn(0xc40f);
        assert!(cpu.get_values_register(4) <= 0x0f);
    }
    cpu.inst_cxnn_with(0xc43c, 0xff);
    assert_eq!(cpu.get_values_register(4), 0x3c);
}

#[test]
fn register_range() {
    let mut cpu = CPUOpcodes::initialize();
    cpu.set_values_register(2, 9);
    cpu.set_values_register(3, 8);
    assert_eq!(cpu._get_register_range_array(2, 4), vec![9, 8, 0]);
    assert_eq!(cpu._get_register_range_array(5, 4), Vec::<u8>::new());
}
