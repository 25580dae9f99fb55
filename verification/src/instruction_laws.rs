//! What each instruction does, stated over the two bytes of the opcode in
//! memory and the state before and after the cycle that executes it.

use vstd::prelude::*;
use vstd::arithmetic::div_mod::lemma_fundamental_div_mod_converse;
use crate::model::{
    drawn_below, lemma_row_offset, sprite_pixel,
    cycle, cycle_ok, fetch, op_group, op_n, op_nn, op_nnn, op_x, op_y, state_wf, EffectView,
    VmState, MEMORY_SIZE,
};

verus! {

/// The first byte of the instruction at the program counter.
pub open spec fn hi(s: VmState) -> int {
    s.memory[s.pc as int] as int
}

/// The second byte of the instruction at the program counter.
pub open spec fn lo(s: VmState) -> int {
    s.memory[s.pc + 1] as int
}

/// The register named by the second nibble of the instruction.
pub open spec fn reg_x(s: VmState) -> int {
    hi(s) % 16
}

/// The register named by the third nibble of the instruction.
pub open spec fn reg_y(s: VmState) -> int {
    lo(s) / 16
}

/// The address in the low twelve bits of the instruction.
pub open spec fn addr(s: VmState) -> int {
    (hi(s) % 16) * 256 + lo(s)
}

/// The decoder reads the opcode big-endian from the two bytes.
pub proof fn lemma_opcode_bytes(s: VmState)
    requires
        state_wf(s),
        s.pc + 1 < MEMORY_SIZE,
    ensures
        fetch(s) as int == hi(s) * 256 + lo(s),
        op_group(fetch(s)) == hi(s) / 16,
        op_x(fetch(s)) == reg_x(s),
        op_y(fetch(s)) == reg_y(s),
        op_n(fetch(s)) == lo(s) % 16,
        op_nn(fetch(s)) == lo(s),
        op_nnn(fetch(s)) == addr(s),
{
    let h = hi(s);
    let l = lo(s);
    let op = h * 256 + l;
    assert(0 <= op < 65536);
    assert(fetch(s) as int == op);
    lemma_fundamental_div_mod_converse(op, 4096, h / 16, (h % 16) * 256 + l);
    lemma_fundamental_div_mod_converse(op, 256, h, l);
    lemma_fundamental_div_mod_converse(h, 16, h / 16, h % 16);
    lemma_fundamental_div_mod_converse(op, 16, h * 16 + l / 16, l % 16);
    lemma_fundamental_div_mod_converse(h * 16 + l / 16, 16, h, l / 16);
}

/// The skip instructions move the program counter past the next
/// instruction exactly when their condition holds, and past themselves only
/// otherwise: `3XNN` on VX == NN, `4XNN` on VX != NN, `5XY0` on VX == VY,
/// `9XY0` on VX != VY, `EX9E` on V0 == key held, `EXA1` on V0 != key held.
pub proof fn law_skips(s: VmState, r: u8)
    requires
        cycle_ok(s),
    ensures
        hi(s) / 16 == 3 ==> cycle(s, r).0.pc == if s.v[reg_x(s)] == lo(s) {
            s.pc + 4
        } else {
            s.pc + 2
        },
        hi(s) / 16 == 4 ==> cycle(s, r).0.pc == if s.v[reg_x(s)] != lo(s) {
            s.pc + 4
        } else {
            s.pc + 2
        },
        hi(s) / 16 == 5 ==> cycle(s, r).0.pc == if s.v[reg_x(s)] == s.v[reg_y(s)] {
            s.pc + 4
        } else {
            s.pc + 2
        },
        hi(s) / 16 == 9 ==> cycle(s, r).0.pc == if s.v[reg_x(s)] != s.v[reg_y(s)] {
            s.pc + 4
        } else {
            s.pc + 2
        },
        hi(s) / 16 == 14 && lo(s) == 0x9E ==> cycle(s, r).0.pc == if s.v[0] == s.keypress {
            s.pc + 4
        } else {
            s.pc + 2
        },
        hi(s) / 16 == 14 && lo(s) == 0xA1 ==> cycle(s, r).0.pc == if s.v[0] != s.keypress {
            s.pc + 4
        } else {
            s.pc + 2
        },
        hi(s) / 16 == 3 || hi(s) / 16 == 4 || hi(s) / 16 == 5 || hi(s) / 16 == 9 ==> cycle(
            s,
            r,
        ).0.v == s.v,
{
    lemma_opcode_bytes(s);
}

/// `1NNN` and `0NNN` (other than `00E0` and `00EE`) jump to NNN, and `BNNN`
/// jumps to NNN + V0.
pub proof fn law_jumps(s: VmState, r: u8)
    requires
        cycle_ok(s),
    ensures
        hi(s) / 16 == 1 ==> cycle(s, r).0.pc == addr(s),
        hi(s) / 16 == 0 && addr(s) != 0x0E0 && addr(s) != 0x0EE ==> cycle(s, r).0.pc == addr(s),
        hi(s) / 16 == 11 ==> cycle(s, r).0.pc == addr(s) + s.v[0],
{
    lemma_opcode_bytes(s);
}

/// `2NNN` pushes the address of the next instruction and then NNN, leaving
/// the stack pointer on NNN, and jumps to NNN; `00EE` clears the slot under
/// the stack pointer, steps it back and jumps to the address stored there;
/// `00E0` turns every pixel off.
pub proof fn law_subroutines_and_clear(s: VmState, r: u8)
    requires
        cycle_ok(s),
    ensures
        hi(s) / 16 == 2 ==> cycle(s, r).0.stack[s.sp as int] == s.pc + 2,
        hi(s) / 16 == 2 ==> cycle(s, r).0.stack[s.sp + 1] == addr(s),
        hi(s) / 16 == 2 ==> cycle(s, r).0.sp == s.sp + 1,
        hi(s) / 16 == 2 ==> cycle(s, r).0.pc == addr(s),
        hi(s) == 0 && lo(s) == 0xEE ==> cycle(s, r).0.pc == s.stack[s.sp - 1],
        hi(s) == 0 && lo(s) == 0xEE ==> cycle(s, r).0.sp == s.sp - 1,
        hi(s) == 0 && lo(s) == 0xEE ==> cycle(s, r).0.stack[s.sp as int] == 0,
        hi(s) / 16 == 2 || (hi(s) == 0 && lo(s) == 0xEE) ==> forall|j: int|
            0 <= j < 16 && j != s.sp && j != s.sp + 1 ==> #[trigger] cycle(s, r).0.stack[j]
                == s.stack[j],
        hi(s) == 0 && lo(s) == 0xE0 ==> forall|k: int|
            0 <= k < 2048 ==> #[trigger] cycle(s, r).0.gfx[k] == 0,
        hi(s) == 0 && lo(s) == 0xE0 ==> cycle(s, r).1 == EffectView::ScreenCleared,
{
    lemma_opcode_bytes(s);
}

/// `6XNN` sets VX to NN, `7XNN` adds NN to VX modulo 256, `CXNN` sets VX
/// to the random byte masked by NN; no other register changes. `ANNN` sets
/// I to NNN.
pub proof fn law_register_loads(s: VmState, r: u8)
    requires
        cycle_ok(s),
    ensures
        hi(s) / 16 == 6 ==> cycle(s, r).0.v[reg_x(s)] == lo(s),
        hi(s) / 16 == 7 ==> cycle(s, r).0.v[reg_x(s)] == (s.v[reg_x(s)] + lo(s)) % 256,
        hi(s) / 16 == 12 ==> cycle(s, r).0.v[reg_x(s)] == (r & (lo(s) as u8)),
        hi(s) / 16 == 6 || hi(s) / 16 == 7 || hi(s) / 16 == 12 ==> forall|z: int|
            0 <= z < 16 && z != reg_x(s) ==> #[trigger] cycle(s, r).0.v[z] == s.v[z],
        hi(s) / 16 == 10 ==> cycle(s, r).0.i == addr(s),
{
    lemma_opcode_bytes(s);
}

/// Every cycle stores the opcode it executes, read big-endian at the
/// program counter.
pub proof fn law_fetch(s: VmState, r: u8)
    requires
        cycle_ok(s),
    ensures
        cycle(s, r).0.opcode == hi(s) * 256 + lo(s),
{
    lemma_opcode_bytes(s);
}

/// `8XY0` to `8XY3` copy, OR, AND and XOR VY into VX, leaving every other
/// register as it was.
pub proof fn law_logic(s: VmState, r: u8)
    requires
        cycle_ok(s),
        hi(s) / 16 == 8,
        lo(s) % 16 <= 3,
    ensures
        lo(s) % 16 == 0 ==> cycle(s, r).0.v[reg_x(s)] == s.v[reg_y(s)],
        lo(s) % 16 == 1 ==> cycle(s, r).0.v[reg_x(s)] == (s.v[reg_x(s)] | s.v[reg_y(s)]),
        lo(s) % 16 == 2 ==> cycle(s, r).0.v[reg_x(s)] == (s.v[reg_x(s)] & s.v[reg_y(s)]),
        lo(s) % 16 == 3 ==> cycle(s, r).0.v[reg_x(s)] == (s.v[reg_x(s)] ^ s.v[reg_y(s)]),
        forall|z: int| 0 <= z < 16 && z != reg_x(s) ==> #[trigger] cycle(s, r).0.v[z] == s.v[z],
{
    lemma_opcode_bytes(s);
    let a = s.v[reg_x(s)];
    let b = s.v[reg_y(s)];
    assert((b | a) == (a | b) && (b & a) == (a & b) && (b ^ a) == (a ^ b)) by (bit_vector);
}

/// `8XY6` (X not F) shifts VX right by one and leaves the bit shifted out
/// in VF: the new VX doubled plus VF gives the old VX.
pub proof fn law_shift_right(s: VmState, r: u8)
    requires
        cycle_ok(s),
        hi(s) / 16 == 8,
        lo(s) % 16 == 6,
        reg_x(s) != 15,
    ensures
        cycle(s, r).0.v[15] <= 1,
        cycle(s, r).0.v[reg_x(s)] * 2 + cycle(s, r).0.v[15] == s.v[reg_x(s)],
{
    lemma_opcode_bytes(s);
}

/// `8XYE` (X not F) shifts VX left by one, dropping the top bit, and leaves
/// that bit in place in VF (0 or 128): the old VX doubled is the new VX plus
/// twice VF.
pub proof fn law_shift_left(s: VmState, r: u8)
    requires
        cycle_ok(s),
        hi(s) / 16 == 8,
        lo(s) % 16 == 14,
        reg_x(s) != 15,
    ensures
        cycle(s, r).0.v[15] == 0 || cycle(s, r).0.v[15] == 128,
        s.v[reg_x(s)] * 2 == cycle(s, r).0.v[reg_x(s)] + 2 * cycle(s, r).0.v[15],
{
    lemma_opcode_bytes(s);
    let a = s.v[reg_x(s)] as int;
    if a >= 128 {
        lemma_fundamental_div_mod_converse(a * 2, 256, 1, a * 2 - 256);
    } else {
        lemma_fundamental_div_mod_converse(a * 2, 256, 0, a * 2);
    }
}

/// `8XY7` (X not F) sets VX to VY - VX modulo 256, and VF to 1 exactly when
/// there was no borrow.
pub proof fn law_reverse_subtract(s: VmState, r: u8)
    requires
        cycle_ok(s),
        hi(s) / 16 == 8,
        lo(s) % 16 == 7,
        reg_x(s) != 15,
    ensures
        cycle(s, r).0.v[reg_x(s)] == (s.v[reg_y(s)] - s.v[reg_x(s)]) % 256,
        cycle(s, r).0.v[15] == (if s.v[reg_y(s)] >= s.v[reg_x(s)] {
            1int
        } else {
            0int
        }),
{
    lemma_opcode_bytes(s);
    let vx = s.v[reg_x(s)] as int;
    let vy = s.v[reg_y(s)] as int;
    if vy < vx {
        lemma_fundamental_div_mod_converse(vy - vx, 256, -1, vy - vx + 256);
    } else {
        lemma_fundamental_div_mod_converse(vy - vx, 256, 0, vy - vx);
    }
}

/// `8XY4` (X not F) sets VX to VX + VY modulo 256 and VF to the carry.
pub proof fn law_add(s: VmState, r: u8)
    requires
        cycle_ok(s),
        hi(s) / 16 == 8,
        lo(s) % 16 == 4,
        reg_x(s) != 15,
    ensures
        cycle(s, r).0.v[15] <= 1,
        cycle(s, r).0.v[reg_x(s)] + 256 * cycle(s, r).0.v[15] == s.v[reg_x(s)] + s.v[reg_y(s)],
{
    lemma_opcode_bytes(s);
    let sum = s.v[reg_x(s)] as int + s.v[reg_y(s)] as int;
    if sum > 255 {
        lemma_fundamental_div_mod_converse(sum, 256, 1, sum - 256);
    } else {
        lemma_fundamental_div_mod_converse(sum, 256, 0, sum);
    }
}

/// The timer and index instructions: `FX07` reads the delay timer (after
/// this cycle's tick) into VX, `FX15` and `FX18` set the delay and sound
/// timers to VX, `FX1E` adds VX to I, and `FX29` points I at the five-byte
/// font sprite of digit VX, from address 0x50 on.
pub proof fn law_timers_and_index(s: VmState, r: u8)
    requires
        cycle_ok(s),
        hi(s) / 16 == 15,
    ensures
        lo(s) == 0x07 ==> cycle(s, r).0.v[reg_x(s)] == if s.delay_timer >= 1 {
            s.delay_timer - 1
        } else {
            0
        },
        lo(s) == 0x15 ==> cycle(s, r).0.delay_timer == s.v[reg_x(s)],
        lo(s) == 0x18 ==> cycle(s, r).0.sound_timer == s.v[reg_x(s)],
        lo(s) == 0x1E ==> cycle(s, r).0.i == s.i + s.v[reg_x(s)],
        lo(s) == 0x29 ==> cycle(s, r).0.i == 0x50 + 5 * s.v[reg_x(s)],
        lo(s) == 0x15 || lo(s) == 0x18 || lo(s) == 0x1E || lo(s) == 0x29 ==> cycle(s, r).0.v
            == s.v,
{
    lemma_opcode_bytes(s);
}

/// `FX33` writes the hundreds, tens and units of VX at I, I + 1 and I + 2;
/// no other byte of memory changes.
pub proof fn law_decimal_digits(s: VmState, r: u8)
    requires
        cycle_ok(s),
        hi(s) / 16 == 15,
        lo(s) == 0x33,
    ensures
        cycle(s, r).0.memory[s.i as int] < 10,
        cycle(s, r).0.memory[s.i + 1] < 10,
        cycle(s, r).0.memory[s.i + 2] < 10,
        cycle(s, r).0.memory[s.i as int] * 100 + cycle(s, r).0.memory[s.i + 1] * 10 + cycle(
            s,
            r,
        ).0.memory[s.i + 2] == s.v[reg_x(s)],
        forall|j: int|
            0 <= j < MEMORY_SIZE && (j < s.i || j > s.i + 2) ==> #[trigger] cycle(s, r).0.memory[j]
                == s.memory[j],
{
    lemma_opcode_bytes(s);
}

/// `FX55` copies V0..=VX to memory from I on and changes no other byte;
/// `FX65` copies memory from I on into V0..=VX and changes no other register.
pub proof fn law_register_dump(s: VmState, r: u8)
    requires
        cycle_ok(s),
        hi(s) / 16 == 15,
    ensures
        lo(s) == 0x55 ==> forall|z: int|
            0 <= z <= reg_x(s) ==> #[trigger] cycle(s, r).0.memory[s.i + z] == s.v[z],
        lo(s) == 0x55 ==> forall|j: int|
            0 <= j < MEMORY_SIZE && (j < s.i || j > s.i + reg_x(s)) ==> #[trigger] cycle(
                s,
                r,
            ).0.memory[j] == s.memory[j],
        lo(s) == 0x65 ==> forall|z: int|
            0 <= z <= reg_x(s) ==> #[trigger] cycle(s, r).0.v[z] == s.memory[s.i + z],
        lo(s) == 0x65 ==> forall|z: int|
            reg_x(s) < z < 16 ==> #[trigger] cycle(s, r).0.v[z] == s.v[z],
{
    lemma_opcode_bytes(s);
}

/// `FX0A` stores the key held in VX; with no key held it changes no
/// register and asks to wait for a key for VX.
pub proof fn law_wait_key(s: VmState, r: u8)
    requires
        cycle_ok(s),
        hi(s) / 16 == 15,
        lo(s) == 0x0A,
    ensures
        s.keypress != 17 ==> cycle(s, r).0.v[reg_x(s)] == s.keypress,
        s.keypress == 17 ==> cycle(s, r).0.v == s.v,
        s.keypress == 17 ==> cycle(s, r).1 == EffectView::AwaitKey(reg_x(s) as usize),
{
    lemma_opcode_bytes(s);
}

/// The screen index of bit `a` of sprite row `row` drawn with its corner at
/// (`vx`, `vy`).
pub open spec fn screen_pos(vx: int, vy: int, row: int, a: int) -> int {
    (vy + row) * 64 + vx + a
}

/// A flipped pixel is bit `d % 64` of sprite row `d / 64`, where `d` is its
/// offset from the corner.
proof fn lemma_pixel_source(mem: Seq<u8>, i: int, vx: int, vy: int, n: int, k: int)
    requires
        sprite_pixel(mem, i, vx, vy, n, k),
    ensures
        ({
            let d = k - vx - 64 * vy;
            &&& 0 <= d / 64 < n
            &&& 0 <= d % 64 < 8
            &&& screen_pos(vx, vy, d / 64, d % 64) == k
        }),
{
    let d = k - vx - 64 * vy;
    let q = d / 64;
    let a = d % 64;
    assert(d == 64 * q + a) by (nonlinear_arith)
        requires
            q == d / 64,
            a == d % 64,
    ;
    assert(screen_pos(vx, vy, q, a) == k) by (nonlinear_arith)
        requires
            d == 64 * q + a,
            d == k - vx - 64 * vy,
    ;
}

/// The reported pixels are exactly the flipped ones.
proof fn lemma_drawn_below_contains(mem: Seq<u8>, i: int, vx: int, vy: int, n: int, m: int, k: int)
    requires
        0 <= k < 2048,
        m <= 2048,
    ensures
        drawn_below(mem, i, vx, vy, n, m).contains(k as usize) <==> (k < m && sprite_pixel(
            mem,
            i,
            vx,
            vy,
            n,
            k,
        )),
    decreases m,
{
    let cur = drawn_below(mem, i, vx, vy, n, m);
    if m > 0 {
        lemma_drawn_below_contains(mem, i, vx, vy, n, m - 1, k);
        let prev = drawn_below(mem, i, vx, vy, n, m - 1);
        if sprite_pixel(mem, i, vx, vy, n, m - 1) {
            assert(cur == prev.push((m - 1) as usize));
            if prev.contains(k as usize) {
                let j = choose|j: int| 0 <= j < prev.len() && prev[j] == k as usize;
                assert(cur[j] == k as usize);
            }
            if cur.contains(k as usize) && k != m - 1 {
                let j = choose|j: int| 0 <= j < cur.len() && cur[j] == k as usize;
                assert(j < prev.len());
                assert(prev[j] == k as usize);
            }
            if k == m - 1 {
                assert(cur[prev.len() as int] == k as usize);
            }
        }
    } else {
        if cur.contains(k as usize) {
            let j = choose|j: int| 0 <= j < cur.len() && cur[j] == k as usize;
        }
    }
}

/// `DXYN` sets VF to 1 when it turns a lit pixel dark and to 0 otherwise,
/// whatever VF held before.
pub proof fn law_draw_flag(s: VmState, r: u8)
    requires
        cycle_ok(s),
        hi(s) / 16 == 13,
    ensures
        cycle(s, r).0.v[15] == (if exists|k: int|
            0 <= k < 2048 && s.gfx[k] == 1 && #[trigger] cycle(s, r).0.gfx[k] == 0 {
            1int
        } else {
            0int
        }),
{
    lemma_opcode_bytes(s);
    let vx = s.v[reg_x(s)] as int;
    let vy = s.v[reg_y(s)] as int;
    let n = lo(s) % 16;
    let mem = s.memory;
    let i = s.i as int;
    let g2 = cycle(s, r).0.gfx;
    if exists|k: int| 0 <= k < 2048 && s.gfx[k] == 1 && #[trigger] g2[k] == 0 {
        let k = choose|k: int| 0 <= k < 2048 && s.gfx[k] == 1 && #[trigger] g2[k] == 0;
        assert(sprite_pixel(mem, i, vx, vy, n, k));
    }
    if crate::model::draw_collides(s.gfx, mem, i, vx, vy, n) {
        let k = choose|k: int|
            0 <= k < s.gfx.len() && #[trigger] sprite_pixel(mem, i, vx, vy, n, k) && s.gfx[k]
                == 1u8;
        assert(1u8 ^ 1u8 == 0u8) by (bit_vector);
        assert(g2[k] == 0);
    }
}

/// `DXYN` XORs bit `a` (from the top) of byte I + `row`, for each of the N
/// rows, onto the pixel at row VY + `row`, column VX + `a` of the 64-wide
/// screen (a row running past the right edge continues on the next screen
/// row, and pixels past the end of the screen are dropped); every pixel
/// that no sprite bit lands on keeps its value.
pub proof fn law_draw_pixels(s: VmState, r: u8)
    requires
        cycle_ok(s),
        hi(s) / 16 == 13,
    ensures
        forall|row: int, a: int|
            0 <= row < lo(s) % 16 && 0 <= a < 8 && #[trigger] screen_pos(
                s.v[reg_x(s)] as int,
                s.v[reg_y(s)] as int,
                row,
                a,
            ) < 2048 ==> cycle(s, r).0.gfx[screen_pos(
                s.v[reg_x(s)] as int,
                s.v[reg_y(s)] as int,
                row,
                a,
            )] == s.gfx[screen_pos(s.v[reg_x(s)] as int, s.v[reg_y(s)] as int, row, a)] ^ ((
            s.memory[s.i + row] >> ((7 - a) as u8)) & 1u8),
        forall|k: int|
            0 <= k < 2048 && (forall|row: int, a: int|
                0 <= row < lo(s) % 16 && 0 <= a < 8 ==> #[trigger] screen_pos(
                    s.v[reg_x(s)] as int,
                    s.v[reg_y(s)] as int,
                    row,
                    a,
                ) != k) ==> #[trigger] cycle(s, r).0.gfx[k] == s.gfx[k],
{
    lemma_opcode_bytes(s);
    let vx = s.v[reg_x(s)] as int;
    let vy = s.v[reg_y(s)] as int;
    let n = lo(s) % 16;
    let mem = s.memory;
    let i = s.i as int;
    let g2 = cycle(s, r).0.gfx;
    assert forall|row: int, a: int|
        0 <= row < n && 0 <= a < 8 && #[trigger] screen_pos(vx, vy, row, a) < 2048 implies g2[screen_pos(
        vx,
        vy,
        row,
        a,
    )] == s.gfx[screen_pos(vx, vy, row, a)] ^ ((mem[i + row] >> ((7 - a) as u8)) & 1u8) by {
        let k = screen_pos(vx, vy, row, a);
        lemma_row_offset(vx, vy, row, a);
        assert(k - vx - 64 * vy == (row + vy) * 64 + vx + a - vx - 64 * vy);
        let b = mem[i + row];
        let sh = (7 - a) as u8;
        let g = s.gfx[k];
        assert(sh < 8);
        assert((b >> sh) & 1u8 == 1u8 ==> g ^ 1u8 == g ^ ((b >> sh) & 1u8)) by (bit_vector);
        assert(sh < 8 && (b >> sh) & 1u8 != 1u8 ==> g == g ^ ((b >> sh) & 1u8)) by (bit_vector);
    }
    assert forall|k: int|
        0 <= k < 2048 && (forall|row: int, a: int|
            0 <= row < n && 0 <= a < 8 ==> #[trigger] screen_pos(vx, vy, row, a) != k) implies #[trigger] g2[k]
        == s.gfx[k] by {
        if sprite_pixel(mem, i, vx, vy, n, k) {
            lemma_pixel_source(mem, i, vx, vy, n, k);
            let d = k - vx - 64 * vy;
            assert(screen_pos(vx, vy, d / 64, d % 64) == k);
        }
    }
}

/// `DXYN` reports, in ascending order, exactly the pixels whose value it
/// changed.
pub proof fn law_draw_reports_flips(s: VmState, r: u8)
    requires
        cycle_ok(s),
        hi(s) / 16 == 13,
    ensures
        cycle(s, r).1 is SpriteDrawn,
        forall|k: int|
            0 <= k < 2048 ==> ((cycle(s, r).1->SpriteDrawn_0).contains(k as usize) <==> #[trigger] cycle(
                s,
                r,
            ).0.gfx[k] != s.gfx[k]),
        forall|j: int|
            0 <= j < (cycle(s, r).1->SpriteDrawn_0).len() ==> #[trigger] (cycle(
                s,
                r,
            ).1->SpriteDrawn_0)[j] < 2048,
        forall|j1: int, j2: int|
            0 <= j1 < j2 < (cycle(s, r).1->SpriteDrawn_0).len() ==> (cycle(s, r).1->SpriteDrawn_0)[j1]
                < (cycle(s, r).1->SpriteDrawn_0)[j2],
{
    lemma_opcode_bytes(s);
    let vx = s.v[reg_x(s)] as int;
    let vy = s.v[reg_y(s)] as int;
    let n = lo(s) % 16;
    let mem = s.memory;
    let i = s.i as int;
    let g2 = cycle(s, r).0.gfx;
    let list = drawn_below(mem, i, vx, vy, n, 2048);
    assert(cycle(s, r).1 == EffectView::SpriteDrawn(list));
    crate::laws::law_drawn_pixels_ascending(mem, i, vx, vy, n, 2048);
    assert forall|k: int| 0 <= k < 2048 implies (list.contains(k as usize) <==> #[trigger] g2[k]
        != s.gfx[k]) by {
        lemma_drawn_below_contains(mem, i, vx, vy, n, 2048, k);
        let g = s.gfx[k];
        assert(g ^ 1u8 != g) by (bit_vector);
    }
}

} // verus!
