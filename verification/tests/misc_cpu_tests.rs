use chip8_emu::misc_cpu::MiscCPU;

#[test]
fn misc_initialize() {
    let cpu = MiscCPU::initialize();
    assert_eq!(cpu.get_pc(), 512);
    assert_eq!(cpu.get_index_register(), 0);
    for i in 0..16 {
        assert_eq!(cpu.get_values_register(i), 0);
    }
}

#[test]
fn misc_jump_and_index() {
    let mut cpu = MiscCPU::initialize();
    cpu.jump([0x1a, 0xbc]);
    assert_eq!(cpu.get_pc(), 0xabc);
    cpu.set_index_register_annn([0xa3, 0x21]);
    assert_eq!(cpu.get_index_register(), 0x321);
    cpu.set_index_register(7);
    assert_eq!(cpu.get_index_register(), 7);
}

#[test]
fn misc_call_return() {
    let mut cpu = MiscCPU::initialize();
    cpu.set_pc(0x222);
    cpu.inst_2nnn([0x23, 0x00]);
    assert_eq!(cpu.get_pc(), 0x300);
    cpu.inst_00ee();
    assert_eq!(cpu.get_pc(), 0x222);
}

#[test]
fn misc_skips() {
    let mut cpu = MiscCPU::initialize();
    cpu.set_values_register(1, 5);
    cpu.inst_3xnn(1, 5);
    assert_eq!(cpu.get_pc(), 514);
    cpu.inst_4xnn(1, 5);
    assert_eq!(cpu.get_pc(), 514);
    cpu.inst_4xnn(1, 6);
    assert_eq!(cpu.get_pc(), 516);
    cpu.inst_5xy0([0x51, 0x20]);
    assert_eq!(cpu.get_pc(), 516);
    cpu.inst_9xy0([0x91, 0x20]);
    assert_eq!(cpu.get_pc(), 518);
    cpu.inc_pc();
    assert_eq!(cpu.get_pc(), 520);
}

#[test]
fn misc_add_immediate_is_taken_modulo_255() {
    let mut cpu = MiscCPU::initialize();
    cpu.set_value_register_vx_6xnn(2, 200);
    cpu.add_value_register_vx_7xnn(2, 55);
    assert_eq!(cpu.get_values_register(2), 0);
    cpu.set_value_register_vx_6xnn(2, 200);
    cpu.add_value_register_vx_7xnn(2, 100);
    assert_eq!(cpu.get_values_register(2), 44);
    cpu.add_value_register_vx_7xnn(2, 1);
    assert_eq!(cpu.get_values_register(2), 45);
}

#[test]
fn misc_alu() {
    let mut cpu = MiscCPU::initialize();
    cpu.set_values_register(1, 200);
    cpu.set_values_register(2, 100);
    assert!(cpu.inst_8xy_x([0x81, 0x24]));
    assert_eq!(cpu.get_values_register(1), 44);
    assert_eq!(cpu.get_values_register(0xf), 1);
    cpu.set_values_register(1, 3);
    assert!(cpu.inst_8xy_x([0x81, 0x25]));
    assert_eq!(cpu.get_values_register(1), 159);
    assert_eq!(cpu.get_values_register(0xf), 0);
    cpu.set_values_register(1, 3);
    assert!(cpu.inst_8xy_x([0x81, 0x27]));
    assert_eq!(cpu.get_values_register(1), 97);
    assert_eq!(cpu.get_values_register(0xf), 1);
    cpu.set_values_register(0xf, 9);
    assert!(cpu.inst_8xy_x([0x81, 0x26]));
    assert_eq!(cpu.get_values_register(1), 50);
    assert_eq!(cpu.get_values_register(0xf), 9);
    assert!(cpu.inst_8xy_x([0x81, 0x2e]));
    assert_eq!(cpu.get_values_register(1), 200);
    assert!(cpu.inst_8xy_x([0x81, 0x20]));
    assert_eq!(cpu.get_values_register(1), 100);
    assert!(!cpu.inst_8xy_x([0x81, 0x29]));
}

#[test]
fn misc_add_into_vf_result_wins() {
    let mut cpu = MiscCPU::initialize();
    cpu.set_values_register(0xf, 200);
    cpu.set_values_register(2, 100);
    assert!(cpu.inst_8xy_x([0x8f, 0x24]));
    assert_eq!(cpu.get_values_register(0xf), 44);
}
