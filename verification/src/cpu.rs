//! The interpreter: fetch, decode and execute over the machine state, and
//! the per-tick step the embedding loop drives.

use vstd::prelude::*;
use crate::constants::{
    BIT_MASK, DISPLAY_HEIGHT, DISPLAY_WIDTH, FLAG_REGISTER, FONT_HEIGHT, FONT_RAM_START,
    FRAME_BUFFER_SIZE, KEYBOARD_SIZE, MAX_ROM_SIZE, PROGRAM_RAM_START, RAM_SIZE, REGISTER_COUNT,
    SPRITE_WIDTH, STACK_SIZE,
};
use crate::error::{Error, ErrorType};
use crate::memory::{load_fonts, load_rom, read_byte, write_byte};
use crate::model;
use crate::model::CpuView;
use crate::registers::Registers;

verus! {

/// Relies on rand::random: a value drawn from the thread-local generator.
/// The draw is non-deterministic, so nothing is promised of the result;
/// callers state what holds of every byte that could come back.
pub assume_specification<T>[ rand::random::<T> ]() -> (r: T)
    where
        rand::distributions::Standard: rand::distributions::Distribution<T>,
;

/// Where a run stands from the embedding loop's point of view.
#[derive(Clone, Copy, PartialEq, Eq, Structural, Debug)]
pub enum GameState {
    Playing,
    Paused,
    Ended,
}

/// The monochrome bitmap handed to the renderer, one 0/1 byte per pixel,
/// row-major.
pub type FrameBuffer = [u8; FRAME_BUFFER_SIZE];

/// The whole machine: memory, register file, frame buffer, the opcode
/// fetched last, the halted-waiting-for-key flag, and the key state.
pub struct Cpu {
    pub ram: [u8; RAM_SIZE],
    pub registers: Registers,
    pub frame_buffer: FrameBuffer,
    pub opcode: u16,
    pub halted: bool,
    pub keys: [bool; KEYBOARD_SIZE],
}

impl View for Cpu {
    type V = CpuView;

    open spec fn view(&self) -> CpuView {
        CpuView {
            ram: self.ram@,
            pc: self.registers.pc,
            i: self.registers.i,
            sp: self.registers.sp as int,
            stack: self.registers.stack@,
            v: self.registers.v@,
            dt: self.registers.dt,
            st: self.registers.st,
            fb: self.frame_buffer@,
            opcode: self.opcode,
            halted: self.halted,
            keys: self.keys@,
        }
    }
}

// ---------------------------------------------------------------------------
// Operand fields.

/// The first register selector, bits 8..11.
pub fn get_x(opcode: u16) -> (r: usize)
    ensures
        r == model::op_x(opcode),
        r < REGISTER_COUNT,
{
    proof {
        model::lemma_op_bounds(opcode);
    }
    ((opcode & 0x0f00) >> 8) as usize
}

/// The second register selector, bits 4..7.
pub fn get_y(opcode: u16) -> (r: usize)
    ensures
        r == model::op_y(opcode),
        r < REGISTER_COUNT,
{
    proof {
        model::lemma_op_bounds(opcode);
    }
    ((opcode & 0x00f0) >> 4) as usize
}

/// The low nibble, bits 0..3.
pub fn get_n(opcode: u16) -> (r: u8)
    ensures
        r == model::op_n(opcode),
        r < 16,
{
    proof {
        model::lemma_op_bounds(opcode);
    }
    (opcode & 0x000f) as u8
}

/// The immediate byte, bits 0..7.
pub fn get_kk(opcode: u16) -> (r: u8)
    ensures
        r == model::op_kk(opcode),
{
    (opcode & 0x00ff) as u8
}

/// The address field, bits 0..11.
pub fn get_nnn(opcode: u16) -> (r: u16)
    ensures
        r == model::op_nnn(opcode),
        r < 0x1000,
{
    proof {
        model::lemma_op_bounds(opcode);
    }
    opcode & 0x0fff
}

/// Whether the opcode names a defined instruction. One that does not
/// executes as a no-op; the embedding program may report it, as the
/// designed failure policy asks, by testing the opcode executed last.
pub fn recognized(opcode: u16) -> (r: bool)
    ensures
        r == model::recognized(opcode),
{
    match (opcode & 0xf000) >> 12 {
        0x8 => {
            let sel = opcode & 0x000f;
            sel <= 0x7 || sel == 0xe
        },
        0xe => {
            let kk = get_kk(opcode);
            kk == 0x9e || kk == 0xa1
        },
        0xf => {
            let kk = get_kk(opcode);
            kk == 0x07 || kk == 0x0a || kk == 0x15 || kk == 0x18 || kk == 0x1e || kk == 0x29 || kk
                == 0x33 || kk == 0x55 || kk == 0x65
        },
        _ => true,
    }
}

/// The lowest-numbered key that was pressed in `before` and is released
/// in `after`, if any.
fn first_released_key(before: &[bool; KEYBOARD_SIZE], after: &[bool; KEYBOARD_SIZE]) -> (r: Option<
    u8,
>)
    ensures
        r == model::first_released(before@, after@),
{
    let mut k: usize = 0;
    while k < KEYBOARD_SIZE
        invariant
            k <= KEYBOARD_SIZE,
            model::first_released(before@, after@) == model::first_released_from(
                before@,
                after@,
                k as nat,
            ),
        decreases KEYBOARD_SIZE - k,
    {
        if before[k] && !after[k] {
            return Some(k as u8);
        }
        k = k + 1;
    }
    None
}

impl Cpu {
    /// Well-formedness of the machine state.
    pub open spec fn wf(&self) -> bool {
        model::wf(self@)
    }

    /// A fresh machine with the fonts written, the given program image
    /// loaded, and everything else zeroed; a program image that does not
    /// fit the program region is rejected.
    pub fn new(rom: &Vec<u8>) -> (r: Result<Cpu, Error>)
        ensures
            rom@.len() <= MAX_ROM_SIZE ==> {
                &&& r matches Ok(cpu)
                &&& cpu.wf()
                &&& cpu@ == model::initial_state(rom@)
            },
            rom@.len() > MAX_ROM_SIZE ==> (r matches Err(e) && e.error
                == ErrorType::OversizedRom),
    {
        let mut ram: [u8; RAM_SIZE] = [0; RAM_SIZE];
        load_fonts(&mut ram);
        load_rom(&mut ram, rom)?;
        let cpu = Cpu {
            ram,
            registers: Registers::new(),
            frame_buffer: [0; FRAME_BUFFER_SIZE],
            opcode: 0x0000,
            halted: false,
            keys: [false; KEYBOARD_SIZE],
        };
        proof {
            assert(cpu@.ram =~= model::initial_state(rom@).ram);
            assert(cpu@.stack =~= model::initial_state(rom@).stack);
            assert(cpu@.v =~= model::initial_state(rom@).v);
            assert(cpu@.fb =~= model::initial_state(rom@).fb);
            assert(cpu@.keys =~= model::initial_state(rom@).keys);
            assert(cpu@ =~= model::initial_state(rom@));
        }
        Ok(cpu)
    }

    /// Jump: `pc = nnn`.
    pub fn opcode_1(&mut self, opcode: u16)
        requires
            old(self).wf(),
        ensures
            final(self).wf(),
            final(self)@ == model::exec_op1(old(self)@, opcode),
    {
        self.registers.pc = get_nnn(opcode);
        proof {
            assert(self@ =~= model::exec_op1(old(self)@, opcode));
        }
    }

    /// Skip the next instruction if `Vx == kk`.
    pub fn opcode_3(&mut self, opcode: u16)
        requires
            old(self).wf(),
        ensures
            final(self).wf(),
            final(self)@ == model::exec_op3(old(self)@, opcode),
    {
        if self.registers.v[get_x(opcode)] == get_kk(opcode) {
            self.registers.pc = self.registers.pc.wrapping_add(2);
        }
        proof {
            assert(self@ =~= model::exec_op3(old(self)@, opcode));
        }
    }

    /// Skip the next instruction if `Vx != kk`.
    pub fn opcode_4(&mut self, opcode: u16)
        requires
            old(self).wf(),
        ensures
            final(self).wf(),
            final(self)@ == model::exec_op4(old(self)@, opcode),
    {
        if self.registers.v[get_x(opcode)] != get_kk(opcode) {
            self.registers.pc = self.registers.pc.wrapping_add(2);
        }
        proof {
            assert(self@ =~= model::exec_op4(old(self)@, opcode));
        }
    }

    /// Skip the next instruction if `Vx == Vy`.
    pub fn opcode_5(&mut self, opcode: u16)
        requires
            old(self).wf(),
        ensures
            final(self).wf(),
            final(self)@ == model::exec_op5(old(self)@, opcode),
    {
        if self.registers.v[get_x(opcode)] == self.registers.v[get_y(opcode)] {
            self.registers.pc = self.registers.pc.wrapping_add(2);
        }
        proof {
            assert(self@ =~= model::exec_op5(old(self)@, opcode));
        }
    }

    /// Load the immediate into `Vx`.
    pub fn opcode_6(&mut self, opcode: u16)
        requires
            old(self).wf(),
        ensures
            final(self).wf(),
            final(self)@ == model::exec_op6(old(self)@, opcode),
    {
        self.registers.v[get_x(opcode)] = get_kk(opcode);
        proof {
            assert(self@ =~= model::exec_op6(old(self)@, opcode));
        }
    }

    /// Add the immediate to `Vx` with 8-bit wraparound, no flag update.
    pub fn opcode_7(&mut self, opcode: u16)
        requires
            old(self).wf(),
        ensures
            final(self).wf(),
            final(self)@ == model::exec_op7(old(self)@, opcode),
    {
        let x = get_x(opcode);
        let value = self.registers.v[x];
        self.registers.v[x] = value.wrapping_add(get_kk(opcode));
        proof {
            assert(self@ =~= model::exec_op7(old(self)@, opcode));
        }
    }

    /// Skip the next instruction if `Vx != Vy`.
    pub fn opcode_9(&mut self, opcode: u16)
        requires
            old(self).wf(),
        ensures
            final(self).wf(),
            final(self)@ == model::exec_op9(old(self)@, opcode),
    {
        if self.registers.v[get_x(opcode)] != self.registers.v[get_y(opcode)] {
            self.registers.pc = self.registers.pc.wrapping_add(2);
        }
        proof {
            assert(self@ =~= model::exec_op9(old(self)@, opcode));
        }
    }

    /// Load the address register: `I = nnn`.
    pub fn opcode_a(&mut self, opcode: u16)
        requires
            old(self).wf(),
        ensures
            final(self).wf(),
            final(self)@ == model::exec_opa(old(self)@, opcode),
    {
        self.registers.i = get_nnn(opcode);
        proof {
            assert(self@ =~= model::exec_opa(old(self)@, opcode));
        }
    }

    /// Clear the frame buffer (`00E0`) or return from a call (`00EE`);
    /// any other opcode in the family is a no-op. A return with the stack
    /// empty is a fatal, reported condition.
    pub fn opcode_0(&mut self, opcode: u16) -> (r: Result<(), Error>)
        requires
            old(self).wf(),
        ensures
            final(self).wf(),
            !model::op0_fault(old(self)@, opcode) ==> (r is Ok && final(self)@
                == model::exec_op0(old(self)@, opcode)),
            model::op0_fault(old(self)@, opcode) ==> (r matches Err(e) && e.error
                == ErrorType::StackUnderflow && final(self)@ == old(self)@),
    {
        if opcode == 0x00e0 {
            self.frame_buffer = [0; FRAME_BUFFER_SIZE];
            proof {
                assert(self@.fb =~= model::exec_op0(old(self)@, opcode).fb);
                assert(self@ =~= model::exec_op0(old(self)@, opcode));
            }
        } else if opcode == 0x00ee {
            if self.registers.sp == 0 {
                return Err(Error::new(ErrorType::StackUnderflow));
            }
            self.registers.pc = self.registers.stack[self.registers.sp];
            self.registers.sp = self.registers.sp - 1;
            proof {
                assert(self@ =~= model::exec_op0(old(self)@, opcode));
            }
        }
        Ok(())
    }

    /// Call: push the return address, `pc = nnn`. The stack pointer moves
    /// up first, then the slot it points at takes the return address. A
    /// call with the stack already full is a fatal, reported condition.
    pub fn opcode_2(&mut self, opcode: u16) -> (r: Result<(), Error>)
        requires
            old(self).wf(),
        ensures
            final(self).wf(),
            !model::op2_fault(old(self)@) ==> (r is Ok && final(self)@ == model::exec_op2(
                old(self)@,
                opcode,
            )),
            model::op2_fault(old(self)@) ==> (r matches Err(e) && e.error
                == ErrorType::StackOverflow && final(self)@ == old(self)@),
    {
        if self.registers.sp + 1 >= STACK_SIZE {
            return Err(Error::new(ErrorType::StackOverflow));
        }
        self.registers.sp = self.registers.sp + 1;
        self.registers.stack[self.registers.sp] = self.registers.pc;
        self.registers.pc = get_nnn(opcode);
        proof {
            assert(self@ =~= model::exec_op2(old(self)@, opcode));
        }
        Ok(())
    }

    /// The ALU family: copy, OR, AND, XOR, add with carry, the two
    /// subtracts, and the two shifts. The shifts read `Vy`, not `Vx`, and
    /// the flag takes the bit shifted out. An unrecognized low nibble is
    /// a no-op.
    #[verifier::rlimit(50)]
    #[verifier::spinoff_prover]
    pub fn opcode_8(&mut self, opcode: u16)
        requires
            old(self).wf(),
        ensures
            final(self).wf(),
            final(self)@ == model::exec_op8(old(self)@, opcode),
    {
        match opcode & 0x000f {
            0x0 => {
                let y = get_y(opcode);
                self.registers.v[get_x(opcode)] = self.registers.v[y];
                proof {
                    assert(self@ =~= model::exec_op8(old(self)@, opcode));
                }
            },
            0x1 => {
                let x = get_x(opcode);
                let y = get_y(opcode);
                self.registers.v[x] = self.registers.v[x] | self.registers.v[y];
                proof {
                    assert(self@ =~= model::exec_op8(old(self)@, opcode));
                }
            },
            0x2 => {
                let x = get_x(opcode);
                let y = get_y(opcode);
                self.registers.v[x] = self.registers.v[x] & self.registers.v[y];
                proof {
                    assert(self@ =~= model::exec_op8(old(self)@, opcode));
                }
            },
            0x3 => {
                let x = get_x(opcode);
                let y = get_y(opcode);
                self.registers.v[x] = self.registers.v[x] ^ self.registers.v[y];
                proof {
                    assert(self@ =~= model::exec_op8(old(self)@, opcode));
                }
            },
            0x4 => {
                let x = self.registers.v[get_x(opcode)];
                let y = self.registers.v[get_y(opcode)];
                self.registers.v[get_x(opcode)] = x.wrapping_add(y);
                if x as u16 + y as u16 > 0xff {
                    self.registers.v[FLAG_REGISTER] = 1;
                } else {
                    self.registers.v[FLAG_REGISTER] = 0;
                }
                proof {
                    assert(self@ =~= model::exec_op8(old(self)@, opcode));
                }
            },
            0x5 => {
                let x = self.registers.v[get_x(opcode)];
                let y = self.registers.v[get_y(opcode)];
                self.registers.v[get_x(opcode)] = x.wrapping_sub(y);
                if x > y {
                    self.registers.v[FLAG_REGISTER] = 1;
                } else {
                    self.registers.v[FLAG_REGISTER] = 0;
                }
                proof {
                    assert(self@ =~= model::exec_op8(old(self)@, opcode));
                }
            },
            0x6 => {
                let y = self.registers.v[get_y(opcode)];
                self.registers.v[get_x(opcode)] = y >> 1;
                self.registers.v[FLAG_REGISTER] = y & 1;
                proof {
                    assert(self@ =~= model::exec_op8(old(self)@, opcode));
                }
            },
            0x7 => {
                let x = self.registers.v[get_x(opcode)];
                let y = self.registers.v[get_y(opcode)];
                self.registers.v[get_x(opcode)] = y.wrapping_sub(x);
                if y > x {
                    self.registers.v[FLAG_REGISTER] = 1;
                } else {
                    self.registers.v[FLAG_REGISTER] = 0;
                }
                proof {
                    assert(self@ =~= model::exec_op8(old(self)@, opcode));
                }
            },
            0xe => {
                let y = self.registers.v[get_y(opcode)];
                self.registers.v[get_x(opcode)] = y << 1;
                self.registers.v[FLAG_REGISTER] = (y & 0b10000000) >> 7;
                proof {
                    assert(self@ =~= model::exec_op8(old(self)@, opcode));
                }
            },
            _ => {
                proof {
                    assert(self@ =~= model::exec_op8(old(self)@, opcode));
                }
            },
        }
    }

    /// `Vx` takes a random byte masked by the immediate. Relies on
    /// `rand::random` for the byte; the contract says only that some byte
    /// came back, so it holds whatever the generator returns.
    pub fn opcode_c(&mut self, opcode: u16)
        requires
            old(self).wf(),
        ensures
            final(self).wf(),
            exists|rnd: u8| final(self)@ == model::exec_opc(old(self)@, opcode, rnd),
    {
        let rnd = rand::random::<u8>();
        self.registers.v[get_x(opcode)] = rnd & get_kk(opcode);
        proof {
            assert(self@ =~= model::exec_opc(old(self)@, opcode, rnd));
        }
    }

    /// Whether logical key `key` is pressed; key codes outside the
    /// sixteen logical keys are never pressed.
    pub fn is_pressed(&self, key: u8) -> (r: bool)
        requires
            self.wf(),
        ensures
            r == model::key_pressed(self@, key),
    {
        (key as usize) < KEYBOARD_SIZE && self.keys[key as usize]
    }

    /// Skip on key pressed (`9E`) or not pressed (`A1`); any other
    /// selector is a no-op.
    pub fn opcode_e(&mut self, opcode: u16)
        requires
            old(self).wf(),
        ensures
            final(self).wf(),
            final(self)@ == model::exec_ope(old(self)@, opcode),
    {
        let x = self.registers.v[get_x(opcode)];
        match get_kk(opcode) {
            0x9e => {
                if self.is_pressed(x) {
                    self.registers.pc = self.registers.pc.wrapping_add(2);
                }
            },
            0xa1 => {
                if !self.is_pressed(x) {
                    self.registers.pc = self.registers.pc.wrapping_add(2);
                }
            },
            _ => {},
        }
        proof {
            assert(self@ =~= model::exec_ope(old(self)@, opcode));
        }
    }

    /// Draw an `n`-row sprite read from memory at `I` at the coordinates
    /// `(Vx mod 64, Vy mod 32)`, XORing its bits into the frame buffer and
    /// clipping at the right and bottom edges. The flag reports whether
    /// any already-set pixel stayed set.
    pub fn opcode_d(&mut self, opcode: u16)
        requires
            old(self).wf(),
        ensures
            final(self).wf(),
            final(self)@ == model::exec_opd(old(self)@, opcode),
    {
        let x = (self.registers.v[get_x(opcode)] as usize) % DISPLAY_WIDTH;
        let y = (self.registers.v[get_y(opcode)] as usize) % DISPLAY_HEIGHT;
        let i = self.registers.i;
        let n = get_n(opcode) as usize;
        let mut collision: bool = false;
        let mut row: usize = 0;

        while row < n
            invariant
                x < DISPLAY_WIDTH,
                y < DISPLAY_HEIGHT,
                n < 16,
                row <= n,
                i == old(self)@.i,
                self.ram == old(self).ram,
                self.registers == old(self).registers,
                self.opcode == old(self).opcode,
                self.halted == old(self).halted,
                self.keys == old(self).keys,
                forall|p: int| 0 <= p < FRAME_BUFFER_SIZE ==> self@.fb[p] < 2,
                model::draw_rows_rec(
                    self@.fb,
                    old(self)@.ram,
                    i,
                    x as int,
                    y as int,
                    n as int,
                    row as int,
                ).0 == model::draw_rows_rec(
                    old(self)@.fb,
                    old(self)@.ram,
                    i,
                    x as int,
                    y as int,
                    n as int,
                    0,
                ).0,
                (collision || model::draw_rows_rec(
                    self@.fb,
                    old(self)@.ram,
                    i,
                    x as int,
                    y as int,
                    n as int,
                    row as int,
                ).1) == model::draw_rows_rec(
                    old(self)@.fb,
                    old(self)@.ram,
                    i,
                    x as int,
                    y as int,
                    n as int,
                    0,
                ).1,
            ensures
                self.ram == old(self).ram,
                self.registers == old(self).registers,
                self.opcode == old(self).opcode,
                self.halted == old(self).halted,
                self.keys == old(self).keys,
                forall|p: int| 0 <= p < FRAME_BUFFER_SIZE ==> self@.fb[p] < 2,
                self@.fb == model::draw_rows_rec(
                    old(self)@.fb,
                    old(self)@.ram,
                    old(self)@.i,
                    x as int,
                    y as int,
                    n as int,
                    0,
                ).0,
                collision == model::draw_rows_rec(
                    old(self)@.fb,
                    old(self)@.ram,
                    old(self)@.i,
                    x as int,
                    y as int,
                    n as int,
                    0,
                ).1,
            decreases n - row,
        {
            if y + row >= DISPLAY_HEIGHT {
                break;
            }
            let sprite = read_byte(&self.ram, ((i as usize + row) % RAM_SIZE) as u16);
            proof {
                assert(sprite == old(self)@.ram[model::mask_addr(i + row)]);
            }
            let py = y + row;
            let ghost fb_r = self@.fb;
            let ghost coll_r = collision;
            let mut col: usize = 0;

            while col < SPRITE_WIDTH
                invariant
                    x < DISPLAY_WIDTH,
                    py < DISPLAY_HEIGHT,
                    col <= SPRITE_WIDTH,
                    self.ram == old(self).ram,
                    self.registers == old(self).registers,
                    self.opcode == old(self).opcode,
                    self.halted == old(self).halted,
                    self.keys == old(self).keys,
                    forall|p: int| 0 <= p < FRAME_BUFFER_SIZE ==> self@.fb[p] < 2,
                    model::draw_row_rec(self@.fb, sprite, x as int, py as int, col as int).0
                        == model::draw_row_rec(fb_r, sprite, x as int, py as int, 0).0,
                    (collision || model::draw_row_rec(
                        self@.fb,
                        sprite,
                        x as int,
                        py as int,
                        col as int,
                    ).1) == (coll_r || model::draw_row_rec(
                        fb_r,
                        sprite,
                        x as int,
                        py as int,
                        0,
                    ).1),
                ensures
                    self.ram == old(self).ram,
                    self.registers == old(self).registers,
                    self.opcode == old(self).opcode,
                    self.halted == old(self).halted,
                    self.keys == old(self).keys,
                    forall|p: int| 0 <= p < FRAME_BUFFER_SIZE ==> self@.fb[p] < 2,
                    self@.fb == model::draw_row_rec(fb_r, sprite, x as int, py as int, 0).0,
                    collision == (coll_r || model::draw_row_rec(
                        fb_r,
                        sprite,
                        x as int,
                        py as int,
                        0,
                    ).1),
                decreases SPRITE_WIDTH - col,
            {
                if x + col >= DISPLAY_WIDTH {
                    break;
                }
                let idx = py * DISPLAY_WIDTH + (x + col);
                let current = self.frame_buffer[idx];
                let c8 = col as u8;
                let bit = (sprite & (BIT_MASK >> c8)) >> (7 - c8);
                proof {
                    model::lemma_sprite_bit(sprite, c8);
                    model::lemma_xor_bits(current, bit);
                    assert(bit == model::sprite_bit(sprite, c8));
                }
                self.frame_buffer[idx] = current ^ bit;
                if current == 1 && self.frame_buffer[idx] == 1 {
                    collision = true;
                }
                col = col + 1;
            }

            row = row + 1;
        }

        self.registers.v[FLAG_REGISTER] = if collision {
            1
        } else {
            0
        };
        proof {
            assert(self@ =~= model::exec_opd(old(self)@, opcode));
        }
    }

    /// The timer, key-wait, address, font, BCD and register dump/load
    /// family. An unrecognized selector is a no-op.
    pub fn opcode_f(&mut self, opcode: u16)
        requires
            old(self).wf(),
        ensures
            final(self).wf(),
            final(self)@ == model::exec_opf(old(self)@, opcode),
    {
        match get_kk(opcode) {
            // LD Vx, DT
            0x07 => {
                self.registers.v[get_x(opcode)] = self.registers.dt;
            },
            // LD Vx, K: halt until a key release arrives (see `cycle`).
            0x0a => {
                self.halted = true;
            },
            // LD DT, Vx
            0x15 => {
                self.registers.dt = self.registers.v[get_x(opcode)];
            },
            // LD ST, Vx
            0x18 => {
                self.registers.st = self.registers.v[get_x(opcode)];
            },
            // ADD I, Vx, wrapping, no flag.
            0x1e => {
                let vx = self.registers.v[get_x(opcode)];
                self.registers.i = self.registers.i.wrapping_add(vx as u16);
            },
            // LD F, Vx: I takes the font address of the low nibble of Vx.
            0x29 => {
                let vx = self.registers.v[get_x(opcode)];
                proof {
                    assert(vx & 0xf < 16) by (bit_vector);
                }
                let d = vx & 0xf;
                proof {
                    assert(FONT_HEIGHT as u16 == 5 && FONT_RAM_START as u16 == 0);
                    assert((d as u16) * 5 <= 75);
                }
                self.registers.i = (d as u16) * (FONT_HEIGHT as u16) + (FONT_RAM_START as u16);
            },
            // LD BCD, Vx: the three decimal digits of Vx at I, I+1, I+2.
            0x33 => {
                let i = self.registers.i as usize;
                let x = self.registers.v[get_x(opcode)];
                write_byte(&mut self.ram, i, x / 100);
                write_byte(&mut self.ram, i + 1, x % 100 / 10);
                write_byte(&mut self.ram, i + 2, x % 10);
            },
            // LD [I], Vx: store V0..=Vx to memory starting at I.
            0x55 => {
                let i = self.registers.i as usize;
                let x = get_x(opcode);
                let mut j: usize = 0;
                while j <= x
                    invariant
                        x < REGISTER_COUNT,
                        j <= x + 1,
                        i == old(self)@.i,
                        self.registers == old(self).registers,
                        self.frame_buffer == old(self).frame_buffer,
                        self.opcode == old(self).opcode,
                        self.halted == old(self).halted,
                        self.keys == old(self).keys,
                        model::store_regs(self@.ram, self@.v, i as int, x as int, j as int)
                            == model::store_regs(
                            old(self)@.ram,
                            old(self)@.v,
                            i as int,
                            x as int,
                            0,
                        ),
                    decreases x + 1 - j,
                {
                    write_byte(&mut self.ram, i + j, self.registers.v[j]);
                    j = j + 1;
                }
                proof {
                    assert(self@ =~= model::exec_opf(old(self)@, opcode));
                }
            },
            // LD Vx, [I]: load V0..=Vx from memory starting at I.
            0x65 => {
                let i = self.registers.i as usize;
                let x = get_x(opcode);
                let mut j: usize = 0;
                while j <= x
                    invariant
                        x < REGISTER_COUNT,
                        j <= x + 1,
                        i == old(self)@.i,
                        self.ram == old(self).ram,
                        self.registers.pc == old(self).registers.pc,
                        self.registers.i == old(self).registers.i,
                        self.registers.sp == old(self).registers.sp,
                        self.registers.stack == old(self).registers.stack,
                        self.registers.dt == old(self).registers.dt,
                        self.registers.st == old(self).registers.st,
                        self.frame_buffer == old(self).frame_buffer,
                        self.opcode == old(self).opcode,
                        self.halted == old(self).halted,
                        self.keys == old(self).keys,
                        self@.v.len() == REGISTER_COUNT,
                        model::load_regs(self@.ram, self@.v, i as int, x as int, j as int)
                            == model::load_regs(
                            old(self)@.ram,
                            old(self)@.v,
                            i as int,
                            x as int,
                            0,
                        ),
                    decreases x + 1 - j,
                {
                    let addr = ((i + j) % RAM_SIZE) as u16;
                    self.registers.v[j] = read_byte(&self.ram, addr);
                    j = j + 1;
                }
                proof {
                    assert(self@ =~= model::exec_opf(old(self)@, opcode));
                }
            },
            _ => {},
        }
        proof {
            assert(self@ =~= model::exec_opf(old(self)@, opcode));
        }
    }

    /// Dispatch the current opcode on its high nibble. The two stack
    /// faults are fatal and leave the state unchanged; every other opcode
    /// runs to completion, an unrecognized one as a no-op that a caller
    /// can detect with `recognized` and report.
    pub fn execute(&mut self) -> (r: Option<Error>)
        requires
            old(self).wf(),
        ensures
            final(self).wf(),
            model::execute_fault(old(self)@) is None ==> (r is None && exists|rnd: u8|
                final(self)@ == model::execute_spec(old(self)@, rnd)),
            model::execute_fault(old(self)@) matches Some(et) ==> (r matches Some(e) && e.error
                == et && final(self)@ == old(self)@),
    {
        let op = self.opcode;
        match (op & 0xf000) >> 12 {
            0x0 => {
                if let Err(e) = self.opcode_0(op) {
                    return Some(e);
                }
            },
            0x1 => {
                self.opcode_1(op);
            },
            0x2 => {
                if let Err(e) = self.opcode_2(op) {
                    return Some(e);
                }
            },
            0x3 => {
                self.opcode_3(op);
            },
            0x4 => {
                self.opcode_4(op);
            },
            0x5 => {
                self.opcode_5(op);
            },
            0x6 => {
                self.opcode_6(op);
            },
            0x7 => {
                self.opcode_7(op);
            },
            0x8 => {
                self.opcode_8(op);
            },
            0x9 => {
                self.opcode_9(op);
            },
            0xa => {
                self.opcode_a(op);
            },
            0xb => {
                self.opcode_b(op);
            },
            0xc => {
                self.opcode_c(op);
            },
            0xd => {
                self.opcode_d(op);
            },
            0xe => {
                self.opcode_e(op);
            },
            0xf => {
                self.opcode_f(op);
            },
            _ => {
                proof {
                    model::lemma_op_bounds(op);
                    assert(false);
                }
            },
        }
        proof {
            if (op & 0xf000) >> 12 == 0xc {
                let rnd = choose|rnd: u8| self@ == model::exec_opc(old(self)@, op, rnd);
                assert(self@ == model::execute_spec(old(self)@, rnd));
            } else {
                assert(self@ == model::execute_spec(old(self)@, 0u8));
            }
        }
        None
    }

    /// One whole scheduler step: take the fresh key snapshot, then either
    /// finish a key wait or fetch and execute one instruction, and on a
    /// frame tick count the timers down. A fatal fetch or stack fault is
    /// returned and the timers are then left alone.
    pub fn cycle(&mut self, keys: &[bool; KEYBOARD_SIZE], frame_tick: bool) -> (r: Result<
        (),
        Error,
    >)
        requires
            old(self).wf(),
        ensures
            final(self).wf(),
            exists|rnd: u8| final(self)@ == model::cycle_spec(old(self)@, keys@, frame_tick, rnd),
            model::cycle_err(old(self)@) is None ==> r is Ok,
            model::cycle_err(old(self)@) matches Some(et) ==> (r matches Err(e) && e.error == et),
    {
        let released = first_released_key(&self.keys, keys);
        self.keys = *keys;
        let ghost mut grnd: u8 = 0;
        if self.halted {
            if let Some(k) = released {
                let x = get_x(self.opcode);
                self.registers.v[x] = k;
                self.halted = false;
            }
        } else {
            if let Some(e) = self.fetch() {
                proof {
                    assert(self@ == model::cycle_spec(old(self)@, keys@, frame_tick, 0u8));
                }
                return Err(e);
            }
            let ghost s_fetched = self@;
            if let Some(e) = self.execute() {
                proof {
                    assert(self@ == model::cycle_spec(old(self)@, keys@, frame_tick, 0u8));
                }
                return Err(e);
            }
            proof {
                grnd = choose|rnd: u8| self@ == model::execute_spec(s_fetched, rnd);
            }
        }
        if frame_tick {
            self.decrement_timers();
        }
        proof {
            assert(self@ == model::cycle_spec(old(self)@, keys@, frame_tick, grnd));
        }
        Ok(())
    }

    /// One frame tick: each timer counts down by one, stopping at zero.
    pub fn decrement_timers(&mut self)
        requires
            old(self).wf(),
        ensures
            final(self).wf(),
            final(self)@ == model::tick_timers(old(self)@),
    {
        if self.registers.dt > 0 {
            self.registers.dt = self.registers.dt - 1;
        }
        if self.registers.st > 0 {
            self.registers.st = self.registers.st - 1;
        }
        proof {
            assert(self@ =~= model::tick_timers(old(self)@));
        }
    }

    /// Whether the tone should be on: the sound timer is non-zero.
    pub fn sound_on(&self) -> (r: bool)
        ensures
            r == (self@.st > 0),
    {
        self.registers.st > 0
    }

    /// Fetch: combine the two bytes at the program counter big-endian
    /// into the current opcode and advance the program counter past them.
    /// A program counter outside the executable window, where it stands
    /// or where the advance puts it, is fatal, and the state is then
    /// unchanged.
    pub fn fetch(&mut self) -> (r: Option<Error>)
        requires
            old(self).wf(),
        ensures
            final(self).wf(),
            model::fetch_fault(old(self)@) ==> (r matches Some(e) && e.error
                == ErrorType::InaccessibleMemoryAddress && final(self)@ == old(self)@),
            !model::fetch_fault(old(self)@) ==> (r is None && final(self)@ == model::fetch_spec(
                old(self)@,
            )),
    {
        if (self.registers.pc as usize) < PROGRAM_RAM_START || (self.registers.pc as usize) + 2
            >= RAM_SIZE - 1 {
            return Some(Error::new(ErrorType::InaccessibleMemoryAddress));
        }
        let high = read_byte(&self.ram, self.registers.pc) as u16;
        self.registers.pc = self.registers.pc + 1;
        let low = read_byte(&self.ram, self.registers.pc) as u16;
        self.registers.pc = self.registers.pc + 1;
        self.opcode = (high << 8) | low;
        proof {
            assert(self@ =~= model::fetch_spec(old(self)@));
        }
        None
    }

    /// Jump with offset: `pc = V0 + nnn`.
    pub fn opcode_b(&mut self, opcode: u16)
        requires
            old(self).wf(),
        ensures
            final(self).wf(),
            final(self)@ == model::exec_opb(old(self)@, opcode),
    {
        self.registers.pc = self.registers.v[0] as u16 + get_nnn(opcode);
        proof {
            assert(self@ =~= model::exec_opb(old(self)@, opcode));
        }
    }
}

} // verus!
