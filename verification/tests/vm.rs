use chip8::constants::{FRAME_BUFFER_SIZE, MAX_ROM_SIZE, RAM_SIZE};
use chip8::cpu::{recognized, Cpu, GameState};
use chip8::error::ErrorType;
use chip8::memory::{load_fonts, load_rom, read_byte, write_byte};

const NO_KEYS: [bool; 16] = [false; 16];

fn fresh() -> Cpu {
    Cpu::new(&Vec::new()).unwrap()
}

#[test]
fn fonts_written_at_startup() {
    let cpu = fresh();
    assert_eq!(&cpu.ram[0..5], &[0xf0, 0x90, 0x90, 0x90, 0xf0]);
    assert_eq!(&cpu.ram[75..80], &[0xf0, 0x80, 0xf0, 0x80, 0x80]);
    let mut ram = [0u8; RAM_SIZE];
    load_fonts(&mut ram);
    assert_eq!(&ram[..80], &cpu.ram[..80]);
}

#[test]
fn rom_lands_at_program_start() {
    let rom = vec![0x12, 0x34, 0x56];
    let cpu = Cpu::new(&rom).unwrap();
    assert_eq!(cpu.ram[0x200], 0x12);
    assert_eq!(cpu.ram[0x201], 0x34);
    assert_eq!(cpu.ram[0x202], 0x56);
    assert_eq!(cpu.ram[0x203], 0);
    assert_eq!(cpu.registers.pc, 0x200);
}

#[test]
fn oversized_rom_is_rejected() {
    // One byte over the program region fails before execution begins.
    let rom = vec![0u8; MAX_ROM_SIZE + 1];
    match Cpu::new(&rom) {
        Ok(_) => panic!("an oversized program image must be rejected"),
        Err(e) => assert_eq!(e.error, ErrorType::OversizedRom),
    }

    let mut ram = [0u8; RAM_SIZE];
    assert!(load_rom(&mut ram, &rom).is_err());
    assert_eq!(ram, [0u8; RAM_SIZE]);

    let exact = vec![7u8; MAX_ROM_SIZE];
    assert!(load_rom(&mut ram, &exact).is_ok());
    assert_eq!(ram[0x200], 7);
    assert_eq!(ram[0xe8e], 7);
    assert_eq!(ram[0xe8f], 0);
}

#[test]
fn memory_access_masks_addresses() {
    let mut ram = [0u8; RAM_SIZE];
    write_byte(&mut ram, RAM_SIZE, 9);
    assert_eq!(ram[0], 9);
    write_byte(&mut ram, 0xffe, 5);
    assert_eq!(ram[0xffe], 5);
    assert_eq!(read_byte(&ram, 0xfff), 9);
    assert_eq!(read_byte(&ram, 0xffe), 5);
}

#[test]
fn clear_screen_blanks_the_frame_buffer() {
    // 00E0 followed by a render hand-off yields all zeros.
    let mut cpu = fresh();
    cpu.registers.i = 0;
    cpu.registers.v[0] = 3;
    cpu.registers.v[1] = 7;
    cpu.opcode_d(0xd015);
    assert!(cpu.frame_buffer.iter().any(|&p| p == 1));
    cpu.opcode_0(0x00e0).unwrap();
    assert_eq!(cpu.frame_buffer, [0u8; FRAME_BUFFER_SIZE]);
}

#[test]
fn draw_xors_sprite_into_frame_buffer() {
    let mut cpu = fresh();
    // Glyph 0 at I = 0: rows f0 90 90 90 f0 drawn at (0, 0).
    cpu.registers.i = 0;
    cpu.opcode_d(0xd015);
    assert_eq!(cpu.registers.v[0xf], 0);
    assert_eq!(&cpu.frame_buffer[0..8], &[1, 1, 1, 1, 0, 0, 0, 0]);
    assert_eq!(&cpu.frame_buffer[64..72], &[1, 0, 0, 1, 0, 0, 0, 0]);
    assert_eq!(&cpu.frame_buffer[256..264], &[1, 1, 1, 1, 0, 0, 0, 0]);
}

#[test]
fn draw_clips_at_the_edges() {
    let mut cpu = fresh();
    cpu.registers.i = 0;
    cpu.registers.v[0] = 62;
    cpu.registers.v[1] = 30;
    cpu.opcode_d(0xd015);
    // Only the two leftmost sprite columns and two top rows land.
    assert_eq!(cpu.frame_buffer[30 * 64 + 62], 1);
    assert_eq!(cpu.frame_buffer[30 * 64 + 63], 1);
    assert_eq!(cpu.frame_buffer[31 * 64 + 62], 1);
    assert_eq!(cpu.frame_buffer[31 * 64 + 63], 0);
    let set: usize = cpu.frame_buffer.iter().map(|&p| p as usize).sum();
    assert_eq!(set, 3);
}

#[test]
fn draw_coordinates_wrap_modulo_display() {
    let mut cpu = fresh();
    cpu.registers.i = 0;
    cpu.registers.v[0] = 64;
    cpu.registers.v[1] = 32;
    cpu.opcode_d(0xd015);
    // (64, 32) wraps to (0, 0).
    assert_eq!(&cpu.frame_buffer[0..4], &[1, 1, 1, 1]);
}

#[test]
fn draw_reads_sprite_rows_through_masked_addresses() {
    let mut cpu = fresh();
    cpu.ram[0xffe] = 0xff;
    // Row 0 reads the last addressable byte; row 1 wraps to address 0,
    // which holds the first font row, 0xf0.
    cpu.registers.i = 0xffe;
    cpu.opcode_d(0xd012);
    assert_eq!(&cpu.frame_buffer[0..9], &[1, 1, 1, 1, 1, 1, 1, 1, 0]);
    assert_eq!(&cpu.frame_buffer[64..72], &[1, 1, 1, 1, 0, 0, 0, 0]);
}

#[test]
fn draw_twice_restores_frame_buffer() {
    // XOR is self-inverse: the second identical draw erases the first.
    let mut cpu = fresh();
    cpu.registers.i = 5;
    cpu.registers.v[0] = 10;
    cpu.registers.v[1] = 4;
    cpu.opcode_d(0xd015);
    let after_background = cpu.frame_buffer;

    // Glyph 0 drawn twice over that background.
    cpu.registers.i = 0;
    cpu.registers.v[0] = 9;
    cpu.registers.v[1] = 3;
    cpu.opcode_d(0xd015);
    let first_flag = cpu.registers.v[0xf];
    cpu.opcode_d(0xd015);
    let second_flag = cpu.registers.v[0xf];
    assert_eq!(cpu.frame_buffer, after_background);
    // Glyph 1 pixels overlap glyph 0 zero-bits in its window, so a
    // previously-set pixel stayed set during both passes.
    assert_eq!(first_flag, 1);
    assert_eq!(second_flag, 1);

    // Over an empty screen no pixel stays set: no collision either time.
    let mut cpu = fresh();
    cpu.registers.i = 0;
    cpu.opcode_d(0xd015);
    assert_eq!(cpu.registers.v[0xf], 0);
    cpu.opcode_d(0xd015);
    assert_eq!(cpu.registers.v[0xf], 0);
    assert_eq!(cpu.frame_buffer, [0u8; FRAME_BUFFER_SIZE]);
}

#[test]
fn cycle_fetches_and_executes() {
    let rom = vec![0x61, 0x40, 0x71, 0x40];
    let mut cpu = Cpu::new(&rom).unwrap();
    cpu.cycle(&NO_KEYS, false).unwrap();
    assert_eq!(cpu.registers.v[1], 0x40);
    assert_eq!(cpu.registers.pc, 0x202);
    cpu.cycle(&NO_KEYS, false).unwrap();
    assert_eq!(cpu.registers.v[1], 0x80);
    assert_eq!(cpu.registers.pc, 0x204);
}

#[test]
fn cycle_call_and_return() {
    let rom = vec![0x22, 0x04, 0x00, 0x00, 0x00, 0xee];
    let mut cpu = Cpu::new(&rom).unwrap();
    cpu.cycle(&NO_KEYS, false).unwrap();
    assert_eq!(cpu.registers.pc, 0x204);
    cpu.cycle(&NO_KEYS, false).unwrap();
    assert_eq!(cpu.registers.pc, 0x202);
}

#[test]
fn cycle_ticks_timers_on_frame_tick() {
    let rom = vec![0x60, 0x00, 0x60, 0x00];
    let mut cpu = Cpu::new(&rom).unwrap();
    cpu.registers.dt = 2;
    cpu.registers.st = 1;
    cpu.cycle(&NO_KEYS, false).unwrap();
    assert_eq!((cpu.registers.dt, cpu.registers.st), (2, 1));
    cpu.cycle(&NO_KEYS, true).unwrap();
    assert_eq!((cpu.registers.dt, cpu.registers.st), (1, 0));
}

#[test]
fn fetch_outside_window_is_fatal() {
    let rom = vec![0x10, 0x00];
    let mut cpu = Cpu::new(&rom).unwrap();
    cpu.cycle(&NO_KEYS, false).unwrap();
    assert_eq!(cpu.registers.pc, 0x000);
    let e = cpu.cycle(&NO_KEYS, false).unwrap_err();
    assert_eq!(e.error, ErrorType::InaccessibleMemoryAddress);
}

#[test]
fn fetch_faults_when_the_advance_leaves_the_window() {
    // A fetch at 0xffa still fits the window; one at 0xffc would put the
    // advanced counter outside it and must fault before reading.
    let rom = vec![0x1f, 0xfa];
    let mut cpu = Cpu::new(&rom).unwrap();
    cpu.cycle(&NO_KEYS, false).unwrap();
    assert_eq!(cpu.registers.pc, 0xffa);
    cpu.cycle(&NO_KEYS, false).unwrap();
    assert_eq!(cpu.registers.pc, 0xffc);
    let e = cpu.cycle(&NO_KEYS, false).unwrap_err();
    assert_eq!(e.error, ErrorType::InaccessibleMemoryAddress);
    assert_eq!(cpu.registers.pc, 0xffc);
}

#[test]
fn unrecognized_opcodes_are_detectable() {
    assert!(recognized(0x00e0));
    assert!(recognized(0x0123)); // the old machine-code call, ignored by design
    assert!(recognized(0x1abc));
    assert!(recognized(0x801e));
    assert!(!recognized(0x8008));
    assert!(!recognized(0x8009));
    assert!(recognized(0xe09e));
    assert!(recognized(0xe0a1));
    assert!(!recognized(0xe000));
    assert!(recognized(0xf065));
    assert!(!recognized(0xf0ff));
    assert!(!recognized(0xf000));
}

#[test]
fn wait_for_key_halts_until_release() {
    // Fx0A stops fetching until a tracked key goes pressed-to-released.
    let rom = vec![0xf1, 0x0a, 0x63, 0x09];
    let mut cpu = Cpu::new(&rom).unwrap();
    cpu.cycle(&NO_KEYS, false).unwrap();
    assert_eq!(cpu.registers.pc, 0x202);
    assert!(cpu.halted);

    // No key activity: pc stays put, still halted.
    for _ in 0..3 {
        cpu.cycle(&NO_KEYS, false).unwrap();
        assert_eq!(cpu.registers.pc, 0x202);
        assert!(cpu.halted);
    }

    // Key 5 pressed: still waiting (a release is what counts).
    let mut pressed = NO_KEYS;
    pressed[5] = true;
    cpu.cycle(&pressed, false).unwrap();
    assert_eq!(cpu.registers.pc, 0x202);
    assert!(cpu.halted);

    // Key 5 released: its code lands in V1 and execution resumes.
    cpu.cycle(&NO_KEYS, false).unwrap();
    assert!(!cpu.halted);
    assert_eq!(cpu.registers.v[1], 5);
    assert_eq!(cpu.registers.pc, 0x202);

    // The next cycle fetches again.
    cpu.cycle(&NO_KEYS, false).unwrap();
    assert_eq!(cpu.registers.pc, 0x204);
    assert_eq!(cpu.registers.v[3], 9);
}

#[test]
fn end_to_end_draw_program() {
    // V1 = 0x40, I = 0x4b, draw a 5-row sprite at (V0, V1) = (0, 0x40):
    // the y coordinate wraps to 0 and drawing must clip, not panic.
    let rom = vec![0x61, 0x40, 0xa0, 0x4b, 0xd0, 0x15];
    let mut cpu = Cpu::new(&rom).unwrap();
    cpu.cycle(&NO_KEYS, false).unwrap();
    assert_eq!(cpu.registers.v[1], 0x40);
    cpu.cycle(&NO_KEYS, false).unwrap();
    assert_eq!(cpu.registers.i, 0x4b);
    cpu.cycle(&NO_KEYS, false).unwrap();
    // The screen was empty, so no pixel could have stayed set.
    assert_eq!(cpu.registers.v[0xf], 0);
    // Rows come from memory at 0x4b..0x50.
    for row in 0..5 {
        let byte = cpu.ram[0x4b + row];
        for col in 0..8 {
            let bit = (byte >> (7 - col)) & 1;
            assert_eq!(cpu.frame_buffer[row * 64 + col], bit);
        }
    }
}

#[test]
fn game_state_is_plain_data() {
    let s = GameState::Playing;
    assert_eq!(s, GameState::Playing);
    assert_ne!(GameState::Paused, GameState::Ended);
}
