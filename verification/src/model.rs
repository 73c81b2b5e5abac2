//! The mathematical model of the machine.
//!
//! `CpuView` is the ghost image of the interpreter state, and the
//! `exec_op*` functions below give the meaning of each instruction family
//! as a pure transition on that image. The executable code in `cpu.rs`
//! carries contracts stated over these functions.

use vstd::prelude::*;
use crate::constants::{
    DISPLAY_HEIGHT, DISPLAY_WIDTH, FLAG_REGISTER, FONT_HEIGHT, FONT_RAM_START,
    FRAME_BUFFER_SIZE, KEYBOARD_SIZE, PROGRAM_RAM_START, RAM_SIZE, REGISTER_COUNT, SPRITE_WIDTH,
    STACK_SIZE,
};
use crate::error::ErrorType;

verus! {

/// Ghost image of the whole machine: memory, register file, frame buffer,
/// current opcode, halted-waiting-for-key flag, and key state.
#[verifier::ext_equal]
pub ghost struct CpuView {
    pub ram: Seq<u8>,
    pub pc: u16,
    pub i: u16,
    pub sp: int,
    pub stack: Seq<u16>,
    pub v: Seq<u8>,
    pub dt: u8,
    pub st: u8,
    pub fb: Seq<u8>,
    pub opcode: u16,
    pub halted: bool,
    pub keys: Seq<bool>,
}

/// Well-formedness: every component has its fixed size, the stack pointer
/// stays inside the stack, and each pixel is 0 or 1.
pub open spec fn wf(s: CpuView) -> bool {
    &&& s.ram.len() == RAM_SIZE
    &&& s.stack.len() == STACK_SIZE
    &&& s.v.len() == REGISTER_COUNT
    &&& s.fb.len() == FRAME_BUFFER_SIZE
    &&& s.keys.len() == KEYBOARD_SIZE
    &&& 0 <= s.sp < STACK_SIZE
    &&& forall|p: int| 0 <= p < s.fb.len() ==> s.fb[p] < 2
}

// ---------------------------------------------------------------------------
// Operand fields of an opcode.

/// Bits 8..11: the first register selector.
pub open spec fn op_x(op: u16) -> u16 {
    (op & 0x0f00) >> 8
}

/// Bits 4..7: the second register selector.
pub open spec fn op_y(op: u16) -> u16 {
    (op & 0x00f0) >> 4
}

/// Bits 0..3: the low nibble.
pub open spec fn op_n(op: u16) -> u16 {
    op & 0x000f
}

/// Bits 0..7: the immediate byte.
pub open spec fn op_kk(op: u16) -> u8 {
    (op & 0x00ff) as u8
}

/// Bits 0..11: the address field.
pub open spec fn op_nnn(op: u16) -> u16 {
    op & 0x0fff
}

/// The operand fields stay inside their ranges.
pub proof fn lemma_op_bounds(op: u16)
    by (bit_vector)
    ensures
        op_x(op) < 16,
        op_y(op) < 16,
        op_n(op) < 16,
        op_nnn(op) < 0x1000,
        ((op & 0xf000) >> 12) < 16,
{
}

// ---------------------------------------------------------------------------
// Memory addressing.

/// Every memory access masks its address into the valid range rather than
/// failing, the friendlier of the two usual policies toward imperfect
/// programs; masking keeps every access total.
pub open spec fn mask_addr(a: int) -> int {
    a % (RAM_SIZE as int)
}

// ---------------------------------------------------------------------------
// Key state.

/// Whether logical key `k` is pressed; key codes outside the sixteen
/// logical keys are never pressed.
pub open spec fn key_pressed(s: CpuView, k: u8) -> bool {
    k < KEYBOARD_SIZE && s.keys[k as int]
}

/// The lowest-numbered key that was pressed in `before` and is released in
/// `after`, scanning upward from key `k`.
pub open spec fn first_released_from(before: Seq<bool>, after: Seq<bool>, k: nat) -> Option<u8>
    decreases KEYBOARD_SIZE - k,
{
    if k >= KEYBOARD_SIZE {
        None
    } else if before[k as int] && !after[k as int] {
        Some(k as u8)
    } else {
        first_released_from(before, after, k + 1)
    }
}

/// The lowest-numbered key that went from pressed to released between the
/// two snapshots, if any.
pub open spec fn first_released(before: Seq<bool>, after: Seq<bool>) -> Option<u8> {
    first_released_from(before, after, 0)
}

// ---------------------------------------------------------------------------
// Timers.

/// One frame tick: each timer counts down by one, stopping at zero.
pub open spec fn tick_timers(s: CpuView) -> CpuView {
    CpuView {
        dt: if s.dt > 0 { (s.dt - 1) as u8 } else { 0 },
        st: if s.st > 0 { (s.st - 1) as u8 } else { 0 },
        ..s
    }
}

// ---------------------------------------------------------------------------
// Fetch.

/// A fetch faults when the program counter is outside the executable
/// window, either where it stands or where the advance past the two
/// bytes puts it; the faulting fetch reads nothing and moves nothing.
pub open spec fn fetch_fault(s: CpuView) -> bool {
    s.pc < PROGRAM_RAM_START || s.pc + 2 >= RAM_SIZE - 1
}

/// Fetch: combine the two bytes at the program counter big-endian into the
/// current opcode and advance the program counter past them.
pub open spec fn fetch_spec(s: CpuView) -> CpuView {
    CpuView {
        pc: ((s.pc + 2) % 0x10000) as u16,
        opcode: ((s.ram[s.pc as int] as u16) << 8) | (s.ram[s.pc + 1] as u16),
        ..s
    }
}

// ---------------------------------------------------------------------------
// Instruction families.

/// Skip the next two-byte instruction.
pub open spec fn skip(s: CpuView) -> CpuView {
    CpuView { pc: ((s.pc + 2) % 0x10000) as u16, ..s }
}

/// Family 0: `00E0` clears the frame buffer; `00EE` pops the return
/// address. Any other opcode in the family is a no-op.
pub open spec fn exec_op0(s: CpuView, op: u16) -> CpuView {
    if op == 0x00e0 {
        CpuView { fb: Seq::new(FRAME_BUFFER_SIZE as nat, |p: int| 0u8), ..s }
    } else if op == 0x00ee {
        CpuView { pc: s.stack[s.sp], sp: s.sp - 1, ..s }
    } else {
        s
    }
}

/// A return with the stack empty is fatal.
pub open spec fn op0_fault(s: CpuView, op: u16) -> bool {
    op == 0x00ee && s.sp == 0
}

/// Family 1: jump.
pub open spec fn exec_op1(s: CpuView, op: u16) -> CpuView {
    CpuView { pc: op_nnn(op), ..s }
}

/// Family 2: call. The stack pointer moves up first, then the slot it
/// points at takes the return address.
pub open spec fn exec_op2(s: CpuView, op: u16) -> CpuView {
    CpuView { sp: s.sp + 1, stack: s.stack.update(s.sp + 1, s.pc), pc: op_nnn(op), ..s }
}

/// A call with the stack already full is fatal.
pub open spec fn op2_fault(s: CpuView) -> bool {
    s.sp + 1 >= STACK_SIZE
}

/// Family 3: skip if `Vx == kk`.
pub open spec fn exec_op3(s: CpuView, op: u16) -> CpuView {
    if s.v[op_x(op) as int] == op_kk(op) { skip(s) } else { s }
}

/// Family 4: skip if `Vx != kk`.
pub open spec fn exec_op4(s: CpuView, op: u16) -> CpuView {
    if s.v[op_x(op) as int] != op_kk(op) { skip(s) } else { s }
}

/// Family 5: skip if `Vx == Vy`.
pub open spec fn exec_op5(s: CpuView, op: u16) -> CpuView {
    if s.v[op_x(op) as int] == s.v[op_y(op) as int] { skip(s) } else { s }
}

/// Family 6: load the immediate into `Vx`.
pub open spec fn exec_op6(s: CpuView, op: u16) -> CpuView {
    CpuView { v: s.v.update(op_x(op) as int, op_kk(op)), ..s }
}

/// Family 7: add the immediate to `Vx` with 8-bit wraparound, no flag.
pub open spec fn exec_op7(s: CpuView, op: u16) -> CpuView {
    CpuView {
        v: s.v.update(op_x(op) as int, ((s.v[op_x(op) as int] + op_kk(op)) % 256) as u8),
        ..s
    }
}

/// Family 8, the ALU: copy, OR, AND, XOR are flag-less; add, the two
/// subtracts and the two shifts write their result first and the flag
/// second, so on `x == 0xf` the flag wins. The shifts read `Vy`, not `Vx`.
/// An unrecognized low nibble is a no-op.
pub open spec fn exec_op8(s: CpuView, op: u16) -> CpuView {
    let x = op_x(op) as int;
    let y = op_y(op) as int;
    let sel = op & 0x000f;
    if sel == 0x0 {
        CpuView { v: s.v.update(x, s.v[y]), ..s }
    } else if sel == 0x1 {
        CpuView { v: s.v.update(x, s.v[x] | s.v[y]), ..s }
    } else if sel == 0x2 {
        CpuView { v: s.v.update(x, s.v[x] & s.v[y]), ..s }
    } else if sel == 0x3 {
        CpuView { v: s.v.update(x, s.v[x] ^ s.v[y]), ..s }
    } else if sel == 0x4 {
        let flag: u8 = if s.v[x] + s.v[y] > 255 { 1 } else { 0 };
        CpuView {
            v: s.v.update(x, ((s.v[x] + s.v[y]) % 256) as u8).update(FLAG_REGISTER as int, flag),
            ..s
        }
    } else if sel == 0x5 {
        let flag: u8 = if s.v[x] > s.v[y] { 1 } else { 0 };
        CpuView {
            v: s.v.update(x, ((s.v[x] - s.v[y]) % 256) as u8).update(FLAG_REGISTER as int, flag),
            ..s
        }
    } else if sel == 0x6 {
        CpuView {
            v: s.v.update(x, s.v[y] >> 1).update(FLAG_REGISTER as int, s.v[y] & 1),
            ..s
        }
    } else if sel == 0x7 {
        let flag: u8 = if s.v[y] > s.v[x] { 1 } else { 0 };
        CpuView {
            v: s.v.update(x, ((s.v[y] - s.v[x]) % 256) as u8).update(FLAG_REGISTER as int, flag),
            ..s
        }
    } else if sel == 0xe {
        CpuView {
            v: s.v.update(x, s.v[y] << 1).update(
                FLAG_REGISTER as int,
                (s.v[y] & 0x80) >> 7,
            ),
            ..s
        }
    } else {
        s
    }
}

/// Family 9: skip if `Vx != Vy`.
pub open spec fn exec_op9(s: CpuView, op: u16) -> CpuView {
    if s.v[op_x(op) as int] != s.v[op_y(op) as int] { skip(s) } else { s }
}

/// Family A: load the address register.
pub open spec fn exec_opa(s: CpuView, op: u16) -> CpuView {
    CpuView { i: op_nnn(op), ..s }
}

/// Family B: jump with offset `V0`.
pub open spec fn exec_opb(s: CpuView, op: u16) -> CpuView {
    CpuView { pc: (s.v[0] + op_nnn(op)) as u16, ..s }
}

/// Family C: `Vx` takes a random byte masked by the immediate.
pub open spec fn exec_opc(s: CpuView, op: u16, rnd: u8) -> CpuView {
    CpuView { v: s.v.update(op_x(op) as int, rnd & op_kk(op)), ..s }
}

// ---------------------------------------------------------------------------
// Family D: sprite drawing.

/// Bit `col` of a sprite byte, most significant first; 0 or 1.
pub open spec fn sprite_bit(byte: u8, col: u8) -> u8 {
    (byte & (0x80u8 >> col)) >> ((7 - col) as u8)
}

/// A sprite bit is 0 or 1.
pub proof fn lemma_sprite_bit(byte: u8, col: u8)
    by (bit_vector)
    requires
        col < 8,
    ensures
        sprite_bit(byte, col) < 2,
{
}

/// XOR on 0/1 pixels stays in 0/1.
pub proof fn lemma_xor_bits(a: u8, b: u8)
    by (bit_vector)
    requires
        a < 2,
        b < 2,
    ensures
        (a ^ b) < 2,
{
}

/// XOR one sprite row into the frame buffer from column `col` on,
/// clipping at the right edge. Returns the new frame buffer and whether
/// some already-set pixel stayed set.
pub open spec fn draw_row_rec(fb: Seq<u8>, byte: u8, x: int, y: int, col: int) -> (Seq<u8>, bool)
    decreases SPRITE_WIDTH - col,
{
    if col < 0 || col >= SPRITE_WIDTH || x + col >= DISPLAY_WIDTH {
        (fb, false)
    } else {
        let idx = y * DISPLAY_WIDTH + x + col;
        let bit = sprite_bit(byte, col as u8);
        let hit = fb[idx] == 1 && (fb[idx] ^ bit) == 1;
        let (fb2, more) = draw_row_rec(fb.update(idx, fb[idx] ^ bit), byte, x, y, col + 1);
        (fb2, hit || more)
    }
}

/// XOR sprite rows `row..n` into the frame buffer, reading each row's byte
/// at the masked address `I + row`, clipping at the bottom edge.
pub open spec fn draw_rows_rec(
    fb: Seq<u8>,
    ram: Seq<u8>,
    i: u16,
    x: int,
    y: int,
    n: int,
    row: int,
) -> (Seq<u8>, bool)
    decreases n - row,
{
    if row < 0 || row >= n || y + row >= DISPLAY_HEIGHT {
        (fb, false)
    } else {
        let byte = ram[mask_addr(i + row)];
        let (fb2, hit) = draw_row_rec(fb, byte, x, y + row, 0);
        let (fb3, more) = draw_rows_rec(fb2, ram, i, x, y, n, row + 1);
        (fb3, hit || more)
    }
}

/// Family D: draw an `n`-row sprite at `(Vx mod 64, Vy mod 32)`; the flag
/// reports whether any already-set pixel stayed set.
pub open spec fn exec_opd(s: CpuView, op: u16) -> CpuView {
    let x = (s.v[op_x(op) as int] as int) % (DISPLAY_WIDTH as int);
    let y = (s.v[op_y(op) as int] as int) % (DISPLAY_HEIGHT as int);
    let (fb, hit) = draw_rows_rec(s.fb, s.ram, s.i, x, y, op_n(op) as int, 0);
    CpuView {
        fb: fb,
        v: s.v.update(FLAG_REGISTER as int, if hit { 1u8 } else { 0u8 }),
        ..s
    }
}

// ---------------------------------------------------------------------------
// Families E and F.

/// Family E: skip on key pressed (`9E`) or not pressed (`A1`); any other
/// selector is a no-op.
pub open spec fn exec_ope(s: CpuView, op: u16) -> CpuView {
    let pressed = key_pressed(s, s.v[op_x(op) as int]);
    if op_kk(op) == 0x9e {
        if pressed { skip(s) } else { s }
    } else if op_kk(op) == 0xa1 {
        if !pressed { skip(s) } else { s }
    } else {
        s
    }
}

/// Store `V0..=Vx` to memory from register `j` on, at masked addresses
/// starting at `I + j`.
pub open spec fn store_regs(ram: Seq<u8>, v: Seq<u8>, i: int, x: int, j: int) -> Seq<u8>
    decreases x + 1 - j,
{
    if j < 0 || j > x {
        ram
    } else {
        store_regs(ram.update(mask_addr(i + j), v[j]), v, i, x, j + 1)
    }
}

/// Load `V0..=Vx` from memory from register `j` on, reading masked
/// addresses starting at `I + j`.
pub open spec fn load_regs(ram: Seq<u8>, v: Seq<u8>, i: int, x: int, j: int) -> Seq<u8>
    decreases x + 1 - j,
{
    if j < 0 || j > x {
        v
    } else {
        load_regs(ram, v.update(j, ram[mask_addr(i + j)]), i, x, j + 1)
    }
}

/// Family F: timers, waiting for a key, address arithmetic, font lookup,
/// BCD, and register dump/load. An unrecognized selector is a no-op.
pub open spec fn exec_opf(s: CpuView, op: u16) -> CpuView {
    let x = op_x(op) as int;
    let sel = op_kk(op);
    if sel == 0x07 {
        CpuView { v: s.v.update(x, s.dt), ..s }
    } else if sel == 0x0a {
        CpuView { halted: true, ..s }
    } else if sel == 0x15 {
        CpuView { dt: s.v[x], ..s }
    } else if sel == 0x18 {
        CpuView { st: s.v[x], ..s }
    } else if sel == 0x1e {
        CpuView { i: ((s.i + s.v[x]) % 0x10000) as u16, ..s }
    } else if sel == 0x29 {
        CpuView {
            i: ((s.v[x] & 0xf) * (FONT_HEIGHT as u8) + (FONT_RAM_START as u8)) as u16,
            ..s
        }
    } else if sel == 0x33 {
        let b = s.v[x];
        CpuView {
            ram: s.ram.update(mask_addr(s.i as int), b / 100).update(
                mask_addr(s.i + 1),
                b % 100 / 10,
            ).update(mask_addr(s.i + 2), b % 10),
            ..s
        }
    } else if sel == 0x55 {
        CpuView { ram: store_regs(s.ram, s.v, s.i as int, x, 0), ..s }
    } else if sel == 0x65 {
        CpuView { v: load_regs(s.ram, s.v, s.i as int, x, 0), ..s }
    } else {
        s
    }
}

// ---------------------------------------------------------------------------
// Dispatch, and one whole scheduler step.

/// Dispatch on the high nibble of the current opcode. `rnd` is the random
/// byte family C consumes; every other family ignores it.
pub open spec fn execute_spec(s: CpuView, rnd: u8) -> CpuView {
    let op = s.opcode;
    let fam = (op & 0xf000) >> 12;
    if fam == 0x0 {
        exec_op0(s, op)
    } else if fam == 0x1 {
        exec_op1(s, op)
    } else if fam == 0x2 {
        exec_op2(s, op)
    } else if fam == 0x3 {
        exec_op3(s, op)
    } else if fam == 0x4 {
        exec_op4(s, op)
    } else if fam == 0x5 {
        exec_op5(s, op)
    } else if fam == 0x6 {
        exec_op6(s, op)
    } else if fam == 0x7 {
        exec_op7(s, op)
    } else if fam == 0x8 {
        exec_op8(s, op)
    } else if fam == 0x9 {
        exec_op9(s, op)
    } else if fam == 0xa {
        exec_opa(s, op)
    } else if fam == 0xb {
        exec_opb(s, op)
    } else if fam == 0xc {
        exec_opc(s, op, rnd)
    } else if fam == 0xd {
        exec_opd(s, op)
    } else if fam == 0xe {
        exec_ope(s, op)
    } else {
        exec_opf(s, op)
    }
}

/// Whether the opcode names a defined instruction. One that does not —
/// an unlisted selector within families 8, E or F — executes as a no-op,
/// and this predicate lets the embedding program report it. A family-0
/// opcode other than `00E0`/`00EE` is the old machine-code call, ignored
/// by design rather than reported.
pub open spec fn recognized(op: u16) -> bool {
    let fam = (op & 0xf000) >> 12;
    let sel = op & 0x000f;
    let kk = op_kk(op);
    if fam == 0x8 {
        sel <= 0x7 || sel == 0xe
    } else if fam == 0xe {
        kk == 0x9e || kk == 0xa1
    } else if fam == 0xf {
        kk == 0x07 || kk == 0x0a || kk == 0x15 || kk == 0x18 || kk == 0x1e || kk == 0x29 || kk
            == 0x33 || kk == 0x55 || kk == 0x65
    } else {
        true
    }
}

/// The fatal faults an execute step can raise: the two stack conditions.
pub open spec fn execute_fault(s: CpuView) -> Option<ErrorType> {
    let op = s.opcode;
    let fam = (op & 0xf000) >> 12;
    if fam == 0x0 && op0_fault(s, op) {
        Some(ErrorType::StackUnderflow)
    } else if fam == 0x2 && op2_fault(s) {
        Some(ErrorType::StackOverflow)
    } else {
        None
    }
}

/// The fault one whole scheduler step raises, if any: nothing while
/// waiting for a key; otherwise a fetch fault, then an execute fault.
pub open spec fn cycle_err(s: CpuView) -> Option<ErrorType> {
    if s.halted {
        None
    } else if fetch_fault(s) {
        Some(ErrorType::InaccessibleMemoryAddress)
    } else {
        execute_fault(fetch_spec(s))
    }
}

/// One whole scheduler step. The key state updates first, whatever the
/// machine state. While waiting for a key, the first pressed-to-released
/// transition lands in the target register and execution resumes;
/// otherwise one instruction is fetched and executed. On a frame tick the
/// timers count down, unless the step faulted.
pub open spec fn cycle_spec(s: CpuView, keys: Seq<bool>, frame_tick: bool, rnd: u8) -> CpuView {
    let released = first_released(s.keys, keys);
    let s1 = CpuView { keys: keys, ..s };
    let s2 = if s1.halted {
        match released {
            Some(k) => CpuView {
                v: s1.v.update(op_x(s1.opcode) as int, k),
                halted: false,
                ..s1
            },
            None => s1,
        }
    } else if fetch_fault(s1) {
        s1
    } else {
        let sf = fetch_spec(s1);
        if execute_fault(sf) is Some {
            sf
        } else {
            execute_spec(sf, rnd)
        }
    };
    if frame_tick && cycle_err(s) is None {
        tick_timers(s2)
    } else {
        s2
    }
}

// ---------------------------------------------------------------------------
// Initial memory contents.

/// The sixteen built-in font glyphs, five bytes each, as written to the
/// bottom of memory at initialization.
pub open spec fn font_data() -> Seq<u8> {
    seq![
        0xf0u8, 0x90, 0x90, 0x90, 0xf0, // 0
        0x20, 0x60, 0x20, 0x20, 0x70, // 1
        0xf0, 0x10, 0xf0, 0x80, 0xf0, // 2
        0xf0, 0x10, 0xf0, 0x10, 0xf0, // 3
        0x90, 0x90, 0xf0, 0x10, 0x10, // 4
        0xf0, 0x80, 0xf0, 0x10, 0xf0, // 5
        0xf0, 0x80, 0xf0, 0x90, 0xf0, // 6
        0xf0, 0x10, 0x20, 0x40, 0x40, // 7
        0xf0, 0x90, 0xf0, 0x90, 0xf0, // 8
        0xf0, 0x90, 0xf0, 0x10, 0xf0, // 9
        0xf0, 0x90, 0xf0, 0x90, 0x90, // a
        0xe0, 0x90, 0xe0, 0x90, 0xe0, // b
        0xf0, 0x80, 0x80, 0x80, 0xf0, // c
        0xe0, 0x90, 0x90, 0x90, 0xe0, // d
        0xf0, 0x80, 0xf0, 0x80, 0xf0, // e
        0xf0, 0x80, 0xf0, 0x80, 0x80, // f
    ]
}

/// The machine as it stands when a run begins: fonts at the bottom of
/// memory, the program image at `PROGRAM_RAM_START`, the program counter
/// there too, and everything else zeroed.
pub open spec fn initial_state(rom: Seq<u8>) -> CpuView {
    CpuView {
        ram: loaded(
            Seq::new(
                RAM_SIZE as nat,
                |j: int| if j < font_data().len() { font_data()[j] } else { 0u8 },
            ),
            rom,
        ),
        pc: PROGRAM_RAM_START as u16,
        i: 0,
        sp: 0,
        stack: Seq::new(STACK_SIZE as nat, |j: int| 0u16),
        v: Seq::new(REGISTER_COUNT as nat, |j: int| 0u8),
        dt: 0,
        st: 0,
        fb: Seq::new(FRAME_BUFFER_SIZE as nat, |j: int| 0u8),
        opcode: 0,
        halted: false,
        keys: Seq::new(KEYBOARD_SIZE as nat, |j: int| false),
    }
}

/// Memory after a program image lands at the program region: the image's
/// bytes from `PROGRAM_RAM_START` on, everything else untouched.
pub open spec fn loaded(ram: Seq<u8>, rom: Seq<u8>) -> Seq<u8> {
    Seq::new(
        RAM_SIZE as nat,
        |j: int| if PROGRAM_RAM_START <= j < PROGRAM_RAM_START + rom.len() {
            rom[j - PROGRAM_RAM_START]
        } else {
            ram[j]
        },
    )
}

} // verus!
