//! Laws the instruction semantics obey, stated and proved over the model.

use vstd::prelude::*;
use crate::constants::{DISPLAY_HEIGHT, DISPLAY_WIDTH, FLAG_REGISTER, FRAME_BUFFER_SIZE,
    KEYBOARD_SIZE};
use crate::model::{
    cycle_spec, draw_row_rec, draw_rows_rec, exec_op0, exec_op2, exec_op6, exec_op7, exec_op8,
    exec_opd, execute_spec, first_released, lemma_op_bounds, mask_addr, op2_fault, op_kk, op_n,
    op_x, op_y, recognized, sprite_bit, wf, CpuView,
};

verus! {

/// XOR by the same byte twice gives the first value back.
pub proof fn lemma_xor_involution(a: u8, b: u8)
    by (bit_vector)
    ensures
        (a ^ b) ^ b == a,
{
}

/// Loading an immediate and then adding the same immediate leaves the
/// register at twice the immediate, modulo 256.
pub proof fn lemma_load_then_add(s: CpuView, op6: u16, op7: u16)
    requires
        wf(s),
        op_x(op6) == op_x(op7),
        op_kk(op6) == op_kk(op7),
    ensures
        exec_op7(exec_op6(s, op6), op7).v[op_x(op6) as int] == (op_kk(op6) + op_kk(op6)) % 256,
{
    lemma_op_bounds(op6);
}

/// Add with carry: the result is the sum modulo 256, and the flag is 1
/// exactly when the unsigned sum exceeds 255. The result clause needs the
/// destination not to be the flag register itself, which the flag write
/// overwrites.
pub proof fn lemma_add_carry(s: CpuView, op: u16)
    requires
        wf(s),
        op & 0x000f == 0x4,
        op_x(op) != FLAG_REGISTER,
    ensures
        exec_op8(s, op).v[op_x(op) as int] == (s.v[op_x(op) as int] + s.v[op_y(op) as int]) % 256,
        exec_op8(s, op).v[FLAG_REGISTER as int] == (
        if s.v[op_x(op) as int] + s.v[op_y(op) as int] > 255 {
            1u8
        } else {
            0u8
        }),
{
    lemma_op_bounds(op);
}

/// Subtract: the flag is 1 exactly when `Vx > Vy`, and the result wraps
/// modulo 256.
pub proof fn lemma_sub_borrow(s: CpuView, op: u16)
    requires
        wf(s),
        op & 0x000f == 0x5,
        op_x(op) != FLAG_REGISTER,
    ensures
        exec_op8(s, op).v[op_x(op) as int] == (s.v[op_x(op) as int] - s.v[op_y(op) as int]) % 256,
        exec_op8(s, op).v[FLAG_REGISTER as int] == (
        if s.v[op_x(op) as int] > s.v[op_y(op) as int] {
            1u8
        } else {
            0u8
        }),
{
    lemma_op_bounds(op);
}

/// Shift right reads its operand from `Vy`, not `Vx`, and the flag takes
/// the bit shifted out: bit 0 of `Vy`.
pub proof fn lemma_shift_right(s: CpuView, op: u16)
    requires
        wf(s),
        op & 0x000f == 0x6,
        op_x(op) != FLAG_REGISTER,
    ensures
        exec_op8(s, op).v[op_x(op) as int] == s.v[op_y(op) as int] >> 1,
        exec_op8(s, op).v[FLAG_REGISTER as int] == s.v[op_y(op) as int] & 1,
{
    lemma_op_bounds(op);
}

/// Shift left reads its operand from `Vy`, not `Vx`, and the flag takes
/// the bit shifted out: bit 7 of `Vy`.
pub proof fn lemma_shift_left(s: CpuView, op: u16)
    requires
        wf(s),
        op & 0x000f == 0xe,
        op_x(op) != FLAG_REGISTER,
    ensures
        exec_op8(s, op).v[op_x(op) as int] == s.v[op_y(op) as int] << 1,
        exec_op8(s, op).v[FLAG_REGISTER as int] == (s.v[op_y(op) as int] & 0x80) >> 7,
{
    lemma_op_bounds(op);
}

/// An opcode outside the defined instruction set executes as a no-op:
/// the machine state does not change, whatever byte the random source
/// would have drawn.
pub proof fn lemma_unrecognized_no_op(s: CpuView, rnd: u8)
    requires
        wf(s),
        !recognized(s.opcode),
    ensures
        execute_spec(s, rnd) == s,
{
}

/// Clearing the screen leaves every pixel zero.
pub proof fn lemma_clear_blanks(s: CpuView)
    requires
        wf(s),
    ensures
        exec_op0(s, 0x00e0).fb.len() == FRAME_BUFFER_SIZE,
        forall|p: int| 0 <= p < FRAME_BUFFER_SIZE ==> exec_op0(s, 0x00e0).fb[p] == 0,
{
}

/// What one sprite row does to the frame buffer, pixel by pixel: the
/// pixels the row reaches take their XOR with the sprite bit, everything
/// else stands.
pub proof fn lemma_row_points(fb: Seq<u8>, byte: u8, x: int, py: int, col: int)
    requires
        fb.len() == FRAME_BUFFER_SIZE,
        0 <= x < DISPLAY_WIDTH,
        0 <= py < DISPLAY_HEIGHT,
        0 <= col,
    ensures
        draw_row_rec(fb, byte, x, py, col).0.len() == fb.len(),
        forall|q: int|
            0 <= q < fb.len() && !(py * DISPLAY_WIDTH + x + col <= q < py * DISPLAY_WIDTH + x + 8
                && q < py * DISPLAY_WIDTH + DISPLAY_WIDTH) ==> draw_row_rec(
                fb,
                byte,
                x,
                py,
                col,
            ).0[q] == fb[q],
        forall|c: int|
            col <= c < 8 && x + c < DISPLAY_WIDTH ==> draw_row_rec(fb, byte, x, py, col).0[py
                * DISPLAY_WIDTH + x + c] == fb[py * DISPLAY_WIDTH + x + c] ^ (#[trigger] sprite_bit(
                byte,
                c as u8,
            )),
    decreases 8 - col,
{
    if col >= 8 || x + col >= DISPLAY_WIDTH {
    } else {
        let idx = py * DISPLAY_WIDTH + x + col;
        let bit = sprite_bit(byte, col as u8);
        let fb2 = fb.update(idx, fb[idx] ^ bit);
        lemma_row_points(fb2, byte, x, py, col + 1);
        assert(draw_row_rec(fb, byte, x, py, col).0 == draw_row_rec(fb2, byte, x, py, col + 1).0);
        assert forall|q: int|
            0 <= q < fb.len() && !(py * DISPLAY_WIDTH + x + col <= q < py * DISPLAY_WIDTH + x + 8
                && q < py * DISPLAY_WIDTH + DISPLAY_WIDTH) implies draw_row_rec(
            fb,
            byte,
            x,
            py,
            col,
        ).0[q] == fb[q] by {
            assert(draw_row_rec(fb2, byte, x, py, col + 1).0[q] == fb2[q]);
            assert(fb2[q] == fb[q]);
        }
        assert forall|c: int|
            col <= c < 8 && x + c < DISPLAY_WIDTH implies draw_row_rec(fb, byte, x, py, col).0[py
            * DISPLAY_WIDTH + x + c] == fb[py * DISPLAY_WIDTH + x + c] ^ (#[trigger] sprite_bit(
            byte,
            c as u8,
        )) by {
            if c == col {
                assert(draw_row_rec(fb2, byte, x, py, col + 1).0[idx] == fb2[idx]);
            } else {
                assert(draw_row_rec(fb2, byte, x, py, col + 1).0[py * DISPLAY_WIDTH + x + c]
                    == fb2[py * DISPLAY_WIDTH + x + c] ^ sprite_bit(byte, c as u8));
                assert(fb2[py * DISPLAY_WIDTH + x + c] == fb[py * DISPLAY_WIDTH + x + c]);
            }
        }
    }
}

/// The value pixel `q` has after sprite rows `row..n` are drawn: its XOR
/// with the sprite bit that lands on it, if one does, else what it was.
pub open spec fn drawn_at(
    fb: Seq<u8>,
    ram: Seq<u8>,
    i: u16,
    x: int,
    y: int,
    n: int,
    row: int,
    q: int,
) -> u8 {
    let r = q / (DISPLAY_WIDTH as int) - y;
    let c = q % (DISPLAY_WIDTH as int) - x;
    if row <= r < n && y + r < DISPLAY_HEIGHT && 0 <= c < 8 && x + c < DISPLAY_WIDTH {
        fb[q] ^ sprite_bit(ram[mask_addr(i + r)], c as u8)
    } else {
        fb[q]
    }
}

/// What drawing sprite rows `row..n` does to the frame buffer, pixel by
/// pixel: each pixel ends at `drawn_at`.
pub proof fn lemma_rows_points(fb: Seq<u8>, ram: Seq<u8>, i: u16, x: int, y: int, n: int, row: int)
    requires
        fb.len() == FRAME_BUFFER_SIZE,
        0 <= x < DISPLAY_WIDTH,
        0 <= y < DISPLAY_HEIGHT,
        0 <= row,
    ensures
        draw_rows_rec(fb, ram, i, x, y, n, row).0.len() == fb.len(),
        forall|q: int|
            0 <= q < fb.len() ==> draw_rows_rec(fb, ram, i, x, y, n, row).0[q] == #[trigger] drawn_at(
                fb,
                ram,
                i,
                x,
                y,
                n,
                row,
                q,
            ),
    decreases n - row,
{
    if row >= n || y + row >= DISPLAY_HEIGHT {
    } else {
        let py = y + row;
        let byte = ram[mask_addr(i + row)];
        let fb2 = draw_row_rec(fb, byte, x, py, 0).0;
        lemma_row_points(fb, byte, x, py, 0);
        lemma_rows_points(fb2, ram, i, x, y, n, row + 1);
        assert(draw_rows_rec(fb, ram, i, x, y, n, row).0 == draw_rows_rec(
            fb2,
            ram,
            i,
            x,
            y,
            n,
            row + 1,
        ).0);
        assert forall|q: int| 0 <= q < fb.len() implies draw_rows_rec(
            fb,
            ram,
            i,
            x,
            y,
            n,
            row,
        ).0[q] == drawn_at(fb, ram, i, x, y, n, row, q) by {
            assert(draw_rows_rec(fb2, ram, i, x, y, n, row + 1).0[q] == drawn_at(
                fb2,
                ram,
                i,
                x,
                y,
                n,
                row + 1,
                q,
            ));
            if py * DISPLAY_WIDTH + x <= q < py * DISPLAY_WIDTH + x + 8 && q < py * DISPLAY_WIDTH
                + DISPLAY_WIDTH {
                let c = q - py * DISPLAY_WIDTH - x;
                assert(q / (DISPLAY_WIDTH as int) == py) by (nonlinear_arith)
                    requires
                        py * DISPLAY_WIDTH <= q < py * DISPLAY_WIDTH + DISPLAY_WIDTH,
                ;
                assert(q % (DISPLAY_WIDTH as int) == x + c) by (nonlinear_arith)
                    requires
                        py * DISPLAY_WIDTH <= q,
                        q == py * DISPLAY_WIDTH + x + c,
                        0 <= x + c < DISPLAY_WIDTH,
                ;
                assert(fb2[q] == fb[q] ^ sprite_bit(byte, c as u8));
                assert(drawn_at(fb2, ram, i, x, y, n, row + 1, q) == fb2[q]);
                assert(drawn_at(fb, ram, i, x, y, n, row, q) == fb[q] ^ sprite_bit(
                    ram[mask_addr(i + row)],
                    c as u8,
                ));
            } else {
                assert(fb2[q] == fb[q]);
                if 0 <= q / (DISPLAY_WIDTH as int) - y - row < 1 {
                    assert(q / (DISPLAY_WIDTH as int) == py);
                    assert(py * DISPLAY_WIDTH <= q < py * DISPLAY_WIDTH + DISPLAY_WIDTH)
                        by (nonlinear_arith)
                        requires
                            q / (DISPLAY_WIDTH as int) == py,
                            0 <= q,
                    ;
                    assert(drawn_at(fb, ram, i, x, y, n, row, q) == fb[q]);
                    assert(drawn_at(fb2, ram, i, x, y, n, row + 1, q) == fb2[q]);
                } else {
                    assert(drawn_at(fb2, ram, i, x, y, n, row + 1, q) == drawn_at(
                        fb,
                        ram,
                        i,
                        x,
                        y,
                        n,
                        row,
                        q,
                    ));
                }
            }
        }
    }
}

/// Whether one sprite row's pass from column `col` on reports a pixel
/// that was set and stayed set.
pub proof fn lemma_row_hit(fb: Seq<u8>, byte: u8, x: int, py: int, col: int)
    requires
        fb.len() == FRAME_BUFFER_SIZE,
        0 <= x < DISPLAY_WIDTH,
        0 <= py < DISPLAY_HEIGHT,
        0 <= col,
    ensures
        draw_row_rec(fb, byte, x, py, col).1 <==> (exists|c: int|
            col <= c < 8 && x + c < DISPLAY_WIDTH && fb[py * DISPLAY_WIDTH + x + c] == 1 && fb[py
                * DISPLAY_WIDTH + x + c] ^ (#[trigger] sprite_bit(byte, c as u8)) == 1),
    decreases 8 - col,
{
    if col >= 8 || x + col >= DISPLAY_WIDTH {
    } else {
        let idx = py * DISPLAY_WIDTH + x + col;
        let bit = sprite_bit(byte, col as u8);
        let fb2 = fb.update(idx, fb[idx] ^ bit);
        lemma_row_hit(fb2, byte, x, py, col + 1);
        lemma_row_points(fb2, byte, x, py, col + 1);
        if draw_row_rec(fb2, byte, x, py, col + 1).1 {
            let c = choose|c: int|
                col + 1 <= c < 8 && x + c < DISPLAY_WIDTH && fb2[py * DISPLAY_WIDTH + x + c] == 1
                    && fb2[py * DISPLAY_WIDTH + x + c] ^ (#[trigger] sprite_bit(byte, c as u8))
                    == 1;
            assert(fb2[py * DISPLAY_WIDTH + x + c] == fb[py * DISPLAY_WIDTH + x + c]);
            assert(col <= c < 8 && x + c < DISPLAY_WIDTH && fb[py * DISPLAY_WIDTH + x + c] == 1
                && fb[py * DISPLAY_WIDTH + x + c] ^ sprite_bit(byte, c as u8) == 1);
        }
        if exists|c: int|
            col <= c < 8 && x + c < DISPLAY_WIDTH && fb[py * DISPLAY_WIDTH + x + c] == 1 && fb[py
                * DISPLAY_WIDTH + x + c] ^ (#[trigger] sprite_bit(byte, c as u8)) == 1 {
            let c = choose|c: int|
                col <= c < 8 && x + c < DISPLAY_WIDTH && fb[py * DISPLAY_WIDTH + x + c] == 1
                    && fb[py * DISPLAY_WIDTH + x + c] ^ (#[trigger] sprite_bit(byte, c as u8))
                    == 1;
            if c != col {
                assert(fb2[py * DISPLAY_WIDTH + x + c] == fb[py * DISPLAY_WIDTH + x + c]);
                assert(col + 1 <= c < 8 && x + c < DISPLAY_WIDTH && fb2[py * DISPLAY_WIDTH + x + c]
                    == 1 && fb2[py * DISPLAY_WIDTH + x + c] ^ sprite_bit(byte, c as u8) == 1);
            }
        }
    }
}

/// Whether drawing sprite rows `row..n` reports a pixel that was set and
/// stayed set: exactly when some already-set pixel lies under a zero bit
/// of the sprite.
pub proof fn lemma_rows_hit(fb: Seq<u8>, ram: Seq<u8>, i: u16, x: int, y: int, n: int, row: int)
    requires
        fb.len() == FRAME_BUFFER_SIZE,
        0 <= x < DISPLAY_WIDTH,
        0 <= y < DISPLAY_HEIGHT,
        0 <= row,
    ensures
        draw_rows_rec(fb, ram, i, x, y, n, row).1 <==> (exists|r: int, c: int|
            row <= r < n && y + r < DISPLAY_HEIGHT && 0 <= c < 8 && x + c < DISPLAY_WIDTH && fb[(y
                + r) * DISPLAY_WIDTH + x + c] == 1 && fb[(y + r) * DISPLAY_WIDTH + x + c]
                ^ (#[trigger] sprite_bit(ram[mask_addr(i + r)], c as u8)) == 1),
    decreases n - row,
{
    if row >= n || y + row >= DISPLAY_HEIGHT {
    } else {
        let py = y + row;
        let byte = ram[mask_addr(i + row)];
        let fb2 = draw_row_rec(fb, byte, x, py, 0).0;
        lemma_row_hit(fb, byte, x, py, 0);
        lemma_row_points(fb, byte, x, py, 0);
        lemma_rows_hit(fb2, ram, i, x, y, n, row + 1);
        if draw_row_rec(fb, byte, x, py, 0).1 {
            let c = choose|c: int|
                0 <= c < 8 && x + c < DISPLAY_WIDTH && fb[py * DISPLAY_WIDTH + x + c] == 1 && fb[py
                    * DISPLAY_WIDTH + x + c] ^ (#[trigger] sprite_bit(byte, c as u8)) == 1;
            assert(row <= row < n && y + row < DISPLAY_HEIGHT && 0 <= c < 8 && x + c
                < DISPLAY_WIDTH && fb[(y + row) * DISPLAY_WIDTH + x + c] == 1 && fb[(y + row)
                * DISPLAY_WIDTH + x + c] ^ sprite_bit(ram[mask_addr(i + row)], c as u8) == 1);
        }
        if draw_rows_rec(fb2, ram, i, x, y, n, row + 1).1 {
            let (r, c) = choose|r: int, c: int|
                row + 1 <= r < n && y + r < DISPLAY_HEIGHT && 0 <= c < 8 && x + c < DISPLAY_WIDTH
                    && fb2[(y + r) * DISPLAY_WIDTH + x + c] == 1 && fb2[(y + r) * DISPLAY_WIDTH + x
                    + c] ^ (#[trigger] sprite_bit(ram[mask_addr(i + r)], c as u8)) == 1;
            assert((y + r) * DISPLAY_WIDTH >= (py + 1) * DISPLAY_WIDTH);
            assert(fb2[(y + r) * DISPLAY_WIDTH + x + c] == fb[(y + r) * DISPLAY_WIDTH + x + c]);
            assert(row <= r < n && y + r < DISPLAY_HEIGHT && 0 <= c < 8 && x + c < DISPLAY_WIDTH
                && fb[(y + r) * DISPLAY_WIDTH + x + c] == 1 && fb[(y + r) * DISPLAY_WIDTH + x + c]
                ^ sprite_bit(ram[mask_addr(i + r)], c as u8) == 1);
        }
        if exists|r: int, c: int|
            row <= r < n && y + r < DISPLAY_HEIGHT && 0 <= c < 8 && x + c < DISPLAY_WIDTH && fb[(y
                + r) * DISPLAY_WIDTH + x + c] == 1 && fb[(y + r) * DISPLAY_WIDTH + x + c]
                ^ (#[trigger] sprite_bit(ram[mask_addr(i + r)], c as u8)) == 1 {
            let (r, c) = choose|r: int, c: int|
                row <= r < n && y + r < DISPLAY_HEIGHT && 0 <= c < 8 && x + c < DISPLAY_WIDTH
                    && fb[(y + r) * DISPLAY_WIDTH + x + c] == 1 && fb[(y + r) * DISPLAY_WIDTH + x
                    + c] ^ (#[trigger] sprite_bit(ram[mask_addr(i + r)], c as u8)) == 1;
            if r == row {
                assert(0 <= c < 8 && x + c < DISPLAY_WIDTH && fb[py * DISPLAY_WIDTH + x + c] == 1
                    && fb[py * DISPLAY_WIDTH + x + c] ^ sprite_bit(byte, c as u8) == 1);
                assert(draw_row_rec(fb, byte, x, py, 0).1);
            } else {
                assert((y + r) * DISPLAY_WIDTH >= (py + 1) * DISPLAY_WIDTH);
                assert(fb2[(y + r) * DISPLAY_WIDTH + x + c] == fb[(y + r) * DISPLAY_WIDTH + x
                    + c]);
                assert(row + 1 <= r < n && y + r < DISPLAY_HEIGHT && 0 <= c < 8 && x + c
                    < DISPLAY_WIDTH && fb2[(y + r) * DISPLAY_WIDTH + x + c] == 1 && fb2[(y + r)
                    * DISPLAY_WIDTH + x + c] ^ sprite_bit(ram[mask_addr(i + r)], c as u8) == 1);
                assert(draw_rows_rec(fb2, ram, i, x, y, n, row + 1).1);
            }
        }
    }
}

/// The draw instruction's flag is 1 exactly when some pixel that was
/// already set lies, inside the clipped sprite window, under a sprite bit
/// that leaves it set.
pub proof fn lemma_draw_flag(s: CpuView, op: u16)
    requires
        wf(s),
    ensures
        exec_opd(s, op).v[FLAG_REGISTER as int] == 1 <==> (exists|r: int, c: int|
            0 <= r < op_n(op) && ((s.v[op_y(op) as int] as int) % (DISPLAY_HEIGHT as int)) + r
                < DISPLAY_HEIGHT && 0 <= c < 8 && ((s.v[op_x(op) as int] as int) % (
            DISPLAY_WIDTH as int)) + c < DISPLAY_WIDTH && s.fb[(((s.v[op_y(op) as int] as int) % (
            DISPLAY_HEIGHT as int)) + r) * DISPLAY_WIDTH + ((s.v[op_x(op) as int] as int) % (
            DISPLAY_WIDTH as int)) + c] == 1 && s.fb[(((s.v[op_y(op) as int] as int) % (
            DISPLAY_HEIGHT as int)) + r) * DISPLAY_WIDTH + ((s.v[op_x(op) as int] as int) % (
            DISPLAY_WIDTH as int)) + c] ^ (#[trigger] sprite_bit(
            s.ram[mask_addr(s.i + r)],
            c as u8,
        )) == 1),
{
    lemma_op_bounds(op);
    let x = (s.v[op_x(op) as int] as int) % (DISPLAY_WIDTH as int);
    let y = (s.v[op_y(op) as int] as int) % (DISPLAY_HEIGHT as int);
    lemma_rows_hit(s.fb, s.ram, s.i, x, y, op_n(op) as int, 0);
}

/// Drawing the same sprite twice at the same coordinates brings the frame
/// buffer back to where it stood: XOR is its own inverse, and both passes
/// land the same bits on the same pixels.
pub proof fn lemma_draw_twice(fb: Seq<u8>, ram: Seq<u8>, i: u16, x: int, y: int, n: int)
    requires
        fb.len() == FRAME_BUFFER_SIZE,
        0 <= x < DISPLAY_WIDTH,
        0 <= y < DISPLAY_HEIGHT,
    ensures
        draw_rows_rec(draw_rows_rec(fb, ram, i, x, y, n, 0).0, ram, i, x, y, n, 0).0 == fb,
{
    let fb1 = draw_rows_rec(fb, ram, i, x, y, n, 0).0;
    let fb2 = draw_rows_rec(fb1, ram, i, x, y, n, 0).0;
    lemma_rows_points(fb, ram, i, x, y, n, 0);
    lemma_rows_points(fb1, ram, i, x, y, n, 0);
    assert forall|q: int| 0 <= q < fb.len() implies fb2[q] == fb[q] by {
        assert(fb1[q] == drawn_at(fb, ram, i, x, y, n, 0, q));
        assert(fb2[q] == drawn_at(fb1, ram, i, x, y, n, 0, q));
        let r = q / (DISPLAY_WIDTH as int) - y;
        let c = q % (DISPLAY_WIDTH as int) - x;
        if 0 <= r < n && y + r < DISPLAY_HEIGHT && 0 <= c < 8 && x + c < DISPLAY_WIDTH {
            lemma_xor_involution(fb[q], sprite_bit(ram[mask_addr(i + r)], c as u8));
        }
    }
    assert(fb2 =~= fb);
}

/// Drawing the same sprite twice at the same coordinates, with neither
/// coordinate register the flag register, brings the frame buffer back to
/// its pre-draw state.
pub proof fn lemma_draw_twice_op(s: CpuView, op: u16)
    requires
        wf(s),
        op_x(op) != FLAG_REGISTER,
        op_y(op) != FLAG_REGISTER,
    ensures
        exec_opd(exec_opd(s, op), op).fb == s.fb,
{
    lemma_op_bounds(op);
    let x = (s.v[op_x(op) as int] as int) % (DISPLAY_WIDTH as int);
    let y = (s.v[op_y(op) as int] as int) % (DISPLAY_HEIGHT as int);
    lemma_draw_twice(s.fb, s.ram, s.i, x, y, op_n(op) as int);
}

/// A call followed by a return brings the program counter back to where
/// it stood right after the call instruction was fetched, and leaves the
/// stack pointer where it was.
pub proof fn lemma_call_then_return(s: CpuView, op: u16)
    requires
        wf(s),
        !op2_fault(s),
    ensures
        exec_op0(exec_op2(s, op), 0x00ee).pc == s.pc,
        exec_op0(exec_op2(s, op), 0x00ee).sp == s.sp,
        exec_op0(exec_op2(s, op), 0x00ee).v == s.v,
        exec_op0(exec_op2(s, op), 0x00ee).ram == s.ram,
{
}

/// While halted waiting for a key, a step in which no tracked key goes
/// from pressed to released moves neither the program counter nor the
/// registers, and the machine stays halted.
pub proof fn lemma_wait_no_release(s: CpuView, keys: Seq<bool>, frame_tick: bool, rnd: u8)
    requires
        wf(s),
        s.halted,
        keys.len() == KEYBOARD_SIZE,
        first_released(s.keys, keys) is None,
    ensures
        cycle_spec(s, keys, frame_tick, rnd).pc == s.pc,
        cycle_spec(s, keys, frame_tick, rnd).halted,
        cycle_spec(s, keys, frame_tick, rnd).v == s.v,
        cycle_spec(s, keys, frame_tick, rnd).opcode == s.opcode,
{
}

/// While halted waiting for a key, the first key that goes from pressed
/// to released lands in the target register, the machine resumes, and the
/// program counter has not moved.
pub proof fn lemma_wait_release(s: CpuView, keys: Seq<bool>, frame_tick: bool, rnd: u8, k: u8)
    requires
        wf(s),
        s.halted,
        keys.len() == KEYBOARD_SIZE,
        first_released(s.keys, keys) == Some(k),
    ensures
        cycle_spec(s, keys, frame_tick, rnd).pc == s.pc,
        !cycle_spec(s, keys, frame_tick, rnd).halted,
        cycle_spec(s, keys, frame_tick, rnd).v[op_x(s.opcode) as int] == k,
{
    lemma_op_bounds(s.opcode);
}

} // verus!
