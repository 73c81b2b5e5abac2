use chip8::cpu::Cpu;
use chip8::error::ErrorType;

fn fresh() -> Cpu {
    Cpu::new(&Vec::new()).unwrap()
}

#[test]
fn load_then_add_doubles_modulo_256() {
    // 6xkk then 7xkk leaves Vx = (kk + kk) mod 256.
    let mut cpu = fresh();
    cpu.opcode_6(0x6140);
    cpu.opcode_7(0x7140);
    assert_eq!(cpu.registers.v[1], 0x80);

    let mut cpu = fresh();
    cpu.opcode_6(0x62ff);
    cpu.opcode_7(0x72ff);
    assert_eq!(cpu.registers.v[2], 0xfe);
}

#[test]
fn add_with_carry_wraps_and_flags() {
    let mut cpu = fresh();
    cpu.registers.v[0] = 200;
    cpu.registers.v[1] = 100;
    cpu.opcode_8(0x8014);
    assert_eq!(cpu.registers.v[0], 44);
    assert_eq!(cpu.registers.v[0xf], 1);

    let mut cpu = fresh();
    cpu.registers.v[0] = 100;
    cpu.registers.v[1] = 100;
    cpu.opcode_8(0x8014);
    assert_eq!(cpu.registers.v[0], 200);
    assert_eq!(cpu.registers.v[0xf], 0);
}

#[test]
fn subtract_flags_no_borrow_and_wraps() {
    let mut cpu = fresh();
    cpu.registers.v[0] = 10;
    cpu.registers.v[1] = 20;
    cpu.opcode_8(0x8015);
    assert_eq!(cpu.registers.v[0], 246);
    assert_eq!(cpu.registers.v[0xf], 0);

    let mut cpu = fresh();
    cpu.registers.v[0] = 20;
    cpu.registers.v[1] = 10;
    cpu.opcode_8(0x8015);
    assert_eq!(cpu.registers.v[0], 10);
    assert_eq!(cpu.registers.v[0xf], 1);
}

#[test]
fn subtract_reversed_flags_and_wraps() {
    let mut cpu = fresh();
    cpu.registers.v[0] = 1;
    cpu.registers.v[1] = 3;
    cpu.opcode_8(0x8017);
    assert_eq!(cpu.registers.v[0], 2);
    assert_eq!(cpu.registers.v[0xf], 1);

    let mut cpu = fresh();
    cpu.registers.v[0] = 3;
    cpu.registers.v[1] = 1;
    cpu.opcode_8(0x8017);
    assert_eq!(cpu.registers.v[0], 254);
    assert_eq!(cpu.registers.v[0xf], 0);
}

#[test]
fn shift_right_reads_vy_and_flags_bit_zero() {
    let mut cpu = fresh();
    cpu.registers.v[0] = 0xaa;
    cpu.registers.v[1] = 0x81;
    cpu.opcode_8(0x8016);
    assert_eq!(cpu.registers.v[0], 0x40);
    assert_eq!(cpu.registers.v[0xf], 1);

    let mut cpu = fresh();
    cpu.registers.v[0] = 0xaa;
    cpu.registers.v[1] = 0x82;
    cpu.opcode_8(0x8016);
    assert_eq!(cpu.registers.v[0], 0x41);
    assert_eq!(cpu.registers.v[0xf], 0);
}

#[test]
fn shift_left_reads_vy_and_flags_bit_seven() {
    let mut cpu = fresh();
    cpu.registers.v[0] = 0xaa;
    cpu.registers.v[1] = 0x81;
    cpu.opcode_8(0x801e);
    assert_eq!(cpu.registers.v[0], 0x02);
    assert_eq!(cpu.registers.v[0xf], 1);

    let mut cpu = fresh();
    cpu.registers.v[0] = 0xaa;
    cpu.registers.v[1] = 0x41;
    cpu.opcode_8(0x801e);
    assert_eq!(cpu.registers.v[0], 0x82);
    assert_eq!(cpu.registers.v[0xf], 0);
}

#[test]
fn alu_copy_or_and_xor() {
    let mut cpu = fresh();
    cpu.registers.v[3] = 0x0f;
    cpu.registers.v[4] = 0x33;
    cpu.opcode_8(0x8340);
    assert_eq!(cpu.registers.v[3], 0x33);

    cpu.registers.v[3] = 0x0f;
    cpu.opcode_8(0x8341);
    assert_eq!(cpu.registers.v[3], 0x3f);

    cpu.registers.v[3] = 0x0f;
    cpu.opcode_8(0x8342);
    assert_eq!(cpu.registers.v[3], 0x03);

    cpu.registers.v[3] = 0x0f;
    cpu.opcode_8(0x8343);
    assert_eq!(cpu.registers.v[3], 0x3c);
}

#[test]
fn jumps_and_skips() {
    let mut cpu = fresh();
    cpu.opcode_1(0x1abc);
    assert_eq!(cpu.registers.pc, 0xabc);

    let mut cpu = fresh();
    cpu.registers.v[0] = 0x10;
    cpu.opcode_b(0xb300);
    assert_eq!(cpu.registers.pc, 0x310);

    let mut cpu = fresh();
    cpu.registers.v[5] = 7;
    cpu.opcode_3(0x3507);
    assert_eq!(cpu.registers.pc, 0x202);
    cpu.opcode_3(0x3508);
    assert_eq!(cpu.registers.pc, 0x202);
    cpu.opcode_4(0x4508);
    assert_eq!(cpu.registers.pc, 0x204);
    cpu.opcode_4(0x4507);
    assert_eq!(cpu.registers.pc, 0x204);

    let mut cpu = fresh();
    cpu.registers.v[5] = 7;
    cpu.registers.v[6] = 7;
    cpu.opcode_5(0x5560);
    assert_eq!(cpu.registers.pc, 0x202);
    cpu.opcode_9(0x9560);
    assert_eq!(cpu.registers.pc, 0x202);
    cpu.registers.v[6] = 8;
    cpu.opcode_9(0x9560);
    assert_eq!(cpu.registers.pc, 0x204);
}

#[test]
fn call_then_return_restores_pc() {
    // 2nnn then 00EE brings pc back to just after the call site.
    let mut cpu = fresh();
    cpu.registers.pc = 0x208;
    cpu.opcode_2(0x2400).unwrap();
    assert_eq!(cpu.registers.pc, 0x400);
    assert_eq!(cpu.registers.sp, 1);
    cpu.opcode_0(0x00ee).unwrap();
    assert_eq!(cpu.registers.pc, 0x208);
    assert_eq!(cpu.registers.sp, 0);
}

#[test]
fn return_with_empty_stack_is_fatal() {
    let mut cpu = fresh();
    let e = cpu.opcode_0(0x00ee).unwrap_err();
    assert_eq!(e.error, ErrorType::StackUnderflow);
}

#[test]
fn call_with_full_stack_is_fatal() {
    let mut cpu = fresh();
    for _ in 0..7 {
        cpu.opcode_2(0x2300).unwrap();
    }
    let e = cpu.opcode_2(0x2300).unwrap_err();
    assert_eq!(e.error, ErrorType::StackOverflow);
}

#[test]
fn random_byte_is_masked() {
    let mut cpu = fresh();
    cpu.registers.v[4] = 0xff;
    cpu.opcode_c(0xc400);
    assert_eq!(cpu.registers.v[4], 0);

    cpu.opcode_c(0xc40f);
    assert_eq!(cpu.registers.v[4] & 0xf0, 0);
}

#[test]
fn load_address_register() {
    let mut cpu = fresh();
    cpu.opcode_a(0xa123);
    assert_eq!(cpu.registers.i, 0x123);
}

#[test]
fn timers_and_sound() {
    let mut cpu = fresh();
    cpu.registers.v[2] = 3;
    cpu.opcode_f(0xf215);
    assert_eq!(cpu.registers.dt, 3);
    cpu.opcode_f(0xf218);
    assert_eq!(cpu.registers.st, 3);
    assert!(cpu.sound_on());
    cpu.decrement_timers();
    cpu.decrement_timers();
    cpu.decrement_timers();
    assert_eq!(cpu.registers.dt, 0);
    assert_eq!(cpu.registers.st, 0);
    assert!(!cpu.sound_on());
    cpu.decrement_timers();
    assert_eq!(cpu.registers.dt, 0);
    assert_eq!(cpu.registers.st, 0);

    cpu.registers.dt = 9;
    cpu.opcode_f(0xf307);
    assert_eq!(cpu.registers.v[3], 9);
}

#[test]
fn add_to_address_register() {
    let mut cpu = fresh();
    cpu.registers.i = 0x0ffe;
    cpu.registers.v[1] = 4;
    cpu.opcode_f(0xf11e);
    assert_eq!(cpu.registers.i, 0x1002);
}

#[test]
fn font_lookup_masks_high_nibble() {
    let mut cpu = fresh();
    cpu.registers.v[6] = 0xa7;
    cpu.opcode_f(0xf629);
    assert_eq!(cpu.registers.i, 7 * 5);
}

#[test]
fn bcd_writes_three_digits() {
    let mut cpu = fresh();
    cpu.registers.i = 0x300;
    cpu.registers.v[2] = 234;
    cpu.opcode_f(0xf233);
    assert_eq!(cpu.ram[0x300], 2);
    assert_eq!(cpu.ram[0x301], 3);
    assert_eq!(cpu.ram[0x302], 4);
}

#[test]
fn store_then_load_registers_round_trip() {
    let mut cpu = fresh();
    cpu.registers.i = 0x400;
    for j in 0..4 {
        cpu.registers.v[j] = (10 + j) as u8;
    }
    cpu.opcode_f(0xf355);
    assert_eq!(cpu.ram[0x400], 10);
    assert_eq!(cpu.ram[0x403], 13);

    let mut other = fresh();
    other.registers.i = 0x400;
    other.ram = cpu.ram;
    other.opcode_f(0xf365);
    assert_eq!(other.registers.v[0], 10);
    assert_eq!(other.registers.v[1], 11);
    assert_eq!(other.registers.v[2], 12);
    assert_eq!(other.registers.v[3], 13);
}

#[test]
fn key_skips() {
    let mut cpu = fresh();
    cpu.registers.v[0] = 5;
    cpu.keys[5] = true;
    cpu.opcode_e(0xe09e);
    assert_eq!(cpu.registers.pc, 0x202);
    cpu.opcode_e(0xe0a1);
    assert_eq!(cpu.registers.pc, 0x202);
    cpu.keys[5] = false;
    cpu.opcode_e(0xe0a1);
    assert_eq!(cpu.registers.pc, 0x204);
    // Key codes beyond the sixteen logical keys are never pressed.
    cpu.registers.v[0] = 200;
    cpu.opcode_e(0xe09e);
    assert_eq!(cpu.registers.pc, 0x204);
}

#[test]
fn unrecognized_sub_opcodes_are_no_ops() {
    let mut cpu = fresh();
    let pc = cpu.registers.pc;
    cpu.opcode_0(0x0123).unwrap();
    cpu.opcode_8(0x8009);
    cpu.opcode_e(0xe000);
    cpu.opcode_f(0xf0ff);
    assert_eq!(cpu.registers.pc, pc);
    assert_eq!(cpu.registers.v, [0u8; 16]);
}
