//! The mathematical model of the machine: its state as sequences and
//! integers, and what one cycle does to it.

use vstd::prelude::*;
use vstd::arithmetic::div_mod::lemma_fundamental_div_mod_converse;

verus! {

/// Size of the addressable memory in bytes.
pub const MEMORY_SIZE: usize = 4096;
/// Number of general-purpose registers V0..VF.
pub const NUM_REGISTERS: usize = 16;
/// Number of slots of the call stack.
pub const STACK_SIZE: usize = 16;
/// Width of the screen in pixels.
pub const SCREEN_WIDTH: usize = 64;
/// Height of the screen in pixels.
pub const SCREEN_HEIGHT: usize = 32;
/// Number of pixels of the screen.
pub const SCREEN_SIZE: usize = 2048;
/// Address at which programs are loaded and execution starts.
pub const PROGRAM_START: usize = 0x200;
/// Address at which the hexadecimal font is loaded.
pub const FONT_START: usize = 0x50;
/// Largest program that fits between `PROGRAM_START` and the end of memory.
pub const MAX_ROM_SIZE: usize = 3584;
/// The value of the key register when no key is held.
pub const NO_KEY: u8 = 17;

/// The state of the machine, as plain mathematical values.
#[verifier::ext_equal]
pub struct VmState {
    pub memory: Seq<u8>,
    pub v: Seq<u8>,
    pub stack: Seq<u16>,
    pub sp: usize,
    pub delay_timer: u8,
    pub sound_timer: u8,
    pub opcode: u16,
    pub i: usize,
    pub pc: usize,
    pub gfx: Seq<u8>,
    pub keypress: u8,
}

/// What a cycle asks of the program that shows the screen.
#[verifier::ext_equal]
pub enum EffectView {
    /// Nothing to show.
    Nothing,
    /// The screen was cleared.
    ScreenCleared,
    /// A sprite was drawn; these pixels (indices into the screen, ascending) flipped.
    SpriteDrawn(Seq<usize>),
    /// The program waits for a key, to be stored in this register.
    AwaitKey(usize),
    /// An `E` instruction with an unknown low byte.
    UnknownE(u16),
    /// An `8` instruction with an unknown low nibble.
    UnknownEight,
    /// An `F` instruction with an unknown low byte.
    UnknownF(u16),
}

/// The sizes of the state's arrays are those of the machine.
pub open spec fn state_wf(s: VmState) -> bool {
    &&& s.memory.len() == MEMORY_SIZE
    &&& s.v.len() == NUM_REGISTERS
    &&& s.stack.len() == STACK_SIZE
    &&& s.gfx.len() == SCREEN_SIZE
}

/// The sprites of the hexadecimal digits 0 to F, five rows each.
pub open spec fn font() -> Seq<u8> {
    seq![
        0xF0u8, 0x90, 0x90, 0x90, 0xF0, // 0
        0x20, 0x60, 0x20, 0x20, 0x70, // 1
        0xF0, 0x10, 0xF0, 0x80, 0xF0, // 2
        0xF0, 0x10, 0xF0, 0x10, 0xF0, // 3
        0x90, 0x90, 0xF0, 0x10, 0x10, // 4
        0xF0, 0x80, 0xF0, 0x10, 0xF0, // 5
        0xF0, 0x80, 0xF0, 0x90, 0xF0, // 6
        0xF0, 0x10, 0x20, 0x40, 0x40, // 7
        0xF0, 0x90, 0xF0, 0x90, 0xF0, // 8
        0xF0, 0x90, 0xF0, 0x10, 0xF0, // 9
        0xF0, 0x90, 0xF0, 0x90, 0x90, // A
        0xE0, 0x90, 0xE0, 0x90, 0xE0, // B
        0xF0, 0x80, 0x80, 0x80, 0xF0, // C
        0xE0, 0x90, 0x90, 0x90, 0xE0, // D
        0xF0, 0x80, 0xF0, 0x80, 0xF0, // E
        0xF0, 0x80, 0xF0, 0x80, 0x80, // F
    ]
}

/// The memory once a game is loaded: the program from `PROGRAM_START` on,
/// the font from `FONT_START` on, the rest as it was.
pub open spec fn loaded_memory(mem: Seq<u8>, rom: Seq<u8>) -> Seq<u8> {
    Seq::new(
        mem.len(),
        |j: int|
            if PROGRAM_START <= j < PROGRAM_START + rom.len() {
                rom[j - PROGRAM_START]
            } else if FONT_START <= j < FONT_START + 80 {
                font()[j - FONT_START]
            } else {
                mem[j]
            },
    )
}

// ---------------------------------------------------------------------------
// Decoding
// ---------------------------------------------------------------------------
/// The top nibble of an opcode: its instruction group.
pub open spec fn op_group(op: u16) -> int {
    op as int / 4096
}

/// The second nibble of an opcode: register X.
pub open spec fn op_x(op: u16) -> int {
    (op as int / 256) % 16
}

/// The third nibble of an opcode: register Y.
pub open spec fn op_y(op: u16) -> int {
    (op as int / 16) % 16
}

/// The low nibble of an opcode.
pub open spec fn op_n(op: u16) -> int {
    op as int % 16
}

/// The low byte of an opcode.
pub open spec fn op_nn(op: u16) -> int {
    op as int % 256
}

/// The low twelve bits of an opcode: an address.
pub open spec fn op_nnn(op: u16) -> int {
    op as int % 4096
}

/// The big-endian opcode at the program counter.
pub open spec fn fetch(s: VmState) -> u16 {
    (s.memory[s.pc as int] as int * 256 + s.memory[s.pc + 1] as int) as u16
}

/// A timer counts down by one, and stops at zero.
pub open spec fn count_down(t: u8) -> u8 {
    if t >= 1 {
        (t - 1) as u8
    } else {
        0
    }
}

/// The state once the timers have ticked, the opcode at the program
/// counter has been fetched and the program counter has moved past it.
pub open spec fn decoded(s: VmState) -> VmState {
    VmState {
        delay_timer: count_down(s.delay_timer),
        sound_timer: count_down(s.sound_timer),
        opcode: fetch(s),
        pc: (s.pc + 2) as usize,
        ..s
    }
}

/// The state with register `x` set to `val`.
pub open spec fn set_reg(s: VmState, x: int, val: u8) -> VmState {
    VmState { v: s.v.update(x, val), ..s }
}

/// The state with the next instruction skipped when `cond` holds.
pub open spec fn skip_if(s: VmState, cond: bool) -> VmState {
    if cond {
        VmState { pc: (s.pc + 2) as usize, ..s }
    } else {
        s
    }
}

// ---------------------------------------------------------------------------
// Instructions
// ---------------------------------------------------------------------------
/// A blank screen.
pub open spec fn blank_screen() -> Seq<u8> {
    Seq::new(SCREEN_SIZE as nat, |k: int| 0u8)
}

/// `00E0` clears the screen, `00EE` returns from a subroutine, and any
/// other `0NNN` jumps to `NNN`.
pub open spec fn exec_zero(t: VmState) -> (VmState, EffectView) {
    let code = op_nnn(t.opcode);
    if code == 0x0E0 {
        (VmState { gfx: blank_screen(), ..t }, EffectView::ScreenCleared)
    } else if code == 0x0EE {
        (
            VmState {
                stack: t.stack.update(t.sp as int, 0u16),
                sp: (t.sp - 1) as usize,
                pc: t.stack[t.sp - 1] as usize,
                ..t
            },
            EffectView::Nothing,
        )
    } else {
        (VmState { pc: code as usize, ..t }, EffectView::Nothing)
    }
}

/// `2NNN` pushes the return address, then the target, and jumps to `NNN`;
/// the stack pointer is left on the slot that holds the target.
pub open spec fn exec_call(t: VmState) -> VmState {
    let target = op_nnn(t.opcode);
    VmState {
        stack: t.stack.update(t.sp as int, t.pc as u16).update(t.sp + 1, target as u16),
        sp: (t.sp + 1) as usize,
        pc: target as usize,
        ..t
    }
}

/// The `8XYN` arithmetic and logic instructions.
pub open spec fn exec_eight(t: VmState) -> (VmState, EffectView) {
    let x = op_x(t.opcode);
    let y = op_y(t.opcode);
    let vx = t.v[x];
    let vy = t.v[y];
    let code = op_n(t.opcode);
    if code == 0 {
        (set_reg(t, x, vy), EffectView::Nothing)
    } else if code == 1 {
        (set_reg(t, x, vy | vx), EffectView::Nothing)
    } else if code == 2 {
        (set_reg(t, x, vy & vx), EffectView::Nothing)
    } else if code == 3 {
        (set_reg(t, x, vy ^ vx), EffectView::Nothing)
    } else if code == 4 {
        let sum = vx + vy;
        let t1 = set_reg(t, 15, if sum > 255 { 1u8 } else { 0u8 });
        (set_reg(t1, x, (sum % 256) as u8), EffectView::Nothing)
    } else if code == 5 {
        if vx < vy {
            (set_reg(set_reg(t, x, (vx - vy + 256) as u8), 15, 0u8), EffectView::Nothing)
        } else {
            (set_reg(set_reg(t, x, (vx - vy) as u8), 15, 1u8), EffectView::Nothing)
        }
    } else if code == 6 {
        let t1 = set_reg(t, 15, vx % 2);
        (set_reg(t1, x, t1.v[x] / 2), EffectView::Nothing)
    } else if code == 7 {
        if vy < vx {
            (set_reg(set_reg(t, x, (vy - vx + 256) as u8), 15, 0u8), EffectView::Nothing)
        } else {
            (set_reg(set_reg(t, x, (vy - vx) as u8), 15, 1u8), EffectView::Nothing)
        }
    } else if code == 14 {
        let t1 = set_reg(t, 15, if vx >= 128 { 128u8 } else { 0u8 });
        (set_reg(t1, x, ((t1.v[x] * 2) % 256) as u8), EffectView::Nothing)
    } else {
        (t, EffectView::UnknownEight)
    }
}

/// `EX9E` and `EXA1` skip on whether the key held equals a register. The
/// register index is computed as `(opcode & 0x0F00) << 8` in 16 bits, which
/// is always 0, so these instructions always compare V0.
pub open spec fn exec_e(t: VmState) -> (VmState, EffectView) {
    let code = op_nn(t.opcode);
    if code == 0x9E {
        (skip_if(t, t.v[0] == t.keypress), EffectView::Nothing)
    } else if code == 0xA1 {
        (skip_if(t, t.v[0] != t.keypress), EffectView::Nothing)
    } else {
        (t, EffectView::UnknownE(t.opcode))
    }
}

/// The memory with the decimal digits of `val` written at `i`, `i + 1`, `i + 2`.
pub open spec fn store_bcd(mem: Seq<u8>, i: int, val: u8) -> Seq<u8> {
    mem.update(i, val / 100).update(i + 1, (val / 10) % 10).update(i + 2, val % 10)
}

/// The memory with registers V0..=VX written from address `i` on.
pub open spec fn store_registers(mem: Seq<u8>, v: Seq<u8>, i: int, x: int) -> Seq<u8> {
    Seq::new(mem.len(), |j: int| if i <= j <= i + x { v[j - i] } else { mem[j] })
}

/// The registers with V0..=VX read from address `i` on.
pub open spec fn load_registers(mem: Seq<u8>, v: Seq<u8>, i: int, x: int) -> Seq<u8> {
    Seq::new(v.len(), |z: int| if z <= x { mem[i + z] } else { v[z] })
}

/// The `FXNN` timer, key, index and memory instructions.
pub open spec fn exec_f(t: VmState) -> (VmState, EffectView) {
    let x = op_x(t.opcode);
    let vx = t.v[x];
    let code = op_nn(t.opcode);
    if code == 0x07 {
        (set_reg(t, x, t.delay_timer), EffectView::Nothing)
    } else if code == 0x0A {
        if t.keypress != NO_KEY {
            (set_reg(t, x, t.keypress), EffectView::Nothing)
        } else {
            (t, EffectView::AwaitKey(x as usize))
        }
    } else if code == 0x15 {
        (VmState { delay_timer: vx, ..t }, EffectView::Nothing)
    } else if code == 0x18 {
        (VmState { sound_timer: vx, ..t }, EffectView::Nothing)
    } else if code == 0x1E {
        (VmState { i: (t.i + vx) as usize, ..t }, EffectView::Nothing)
    } else if code == 0x29 {
        (VmState { i: (FONT_START + vx * 5) as usize, ..t }, EffectView::Nothing)
    } else if code == 0x33 {
        (VmState { memory: store_bcd(t.memory, t.i as int, vx), ..t }, EffectView::Nothing)
    } else if code == 0x55 {
        (
            VmState { memory: store_registers(t.memory, t.v, t.i as int, x), ..t },
            EffectView::Nothing,
        )
    } else if code == 0x65 {
        (VmState { v: load_registers(t.memory, t.v, t.i as int, x), ..t }, EffectView::Nothing)
    } else {
        (t, EffectView::UnknownF(t.opcode))
    }
}

// ---------------------------------------------------------------------------
// Sprites
// ---------------------------------------------------------------------------
/// Bit `a` of a sprite row, counted from the most significant bit.
pub open spec fn sprite_bit(row: u8, a: int) -> bool {
    (row >> ((7 - a) as u8)) & 1u8 == 1u8
}

/// Whether screen pixel `k` is flipped by drawing the `n`-row sprite at
/// address `i` with its top-left corner at column `vx` of row `vy`.
/// Rows are 64 pixels wide and a sprite row that runs past the right edge
/// continues on the next screen row; pixels past the last one are dropped.
pub open spec fn sprite_pixel(mem: Seq<u8>, i: int, vx: int, vy: int, n: int, k: int) -> bool {
    let d = k - vx - 64 * vy;
    &&& 0 <= k < SCREEN_SIZE
    &&& 0 <= d
    &&& d % 64 < 8
    &&& d / 64 < n
    &&& sprite_bit(mem[i + d / 64], d % 64)
}

/// The pixels below `m` that the sprite flips, in ascending order.
pub open spec fn drawn_below(mem: Seq<u8>, i: int, vx: int, vy: int, n: int, m: int) -> Seq<usize>
    decreases m,
{
    if m <= 0 {
        Seq::empty()
    } else {
        let prev = drawn_below(mem, i, vx, vy, n, m - 1);
        if sprite_pixel(mem, i, vx, vy, n, m - 1) {
            prev.push((m - 1) as usize)
        } else {
            prev
        }
    }
}

/// The screen after drawing the sprite: its pixels are flipped.
pub open spec fn draw_gfx(gfx: Seq<u8>, mem: Seq<u8>, i: int, vx: int, vy: int, n: int) -> Seq<u8> {
    Seq::new(
        gfx.len(),
        |k: int| if sprite_pixel(mem, i, vx, vy, n, k) { gfx[k] ^ 1u8 } else { gfx[k] },
    )
}

/// Whether the sprite turns off a pixel that was on.
pub open spec fn draw_collides(gfx: Seq<u8>, mem: Seq<u8>, i: int, vx: int, vy: int, n: int) -> bool {
    exists|k: int|
        0 <= k < gfx.len() && #[trigger] sprite_pixel(mem, i, vx, vy, n, k) && gfx[k] == 1u8
}

/// `DXYN` draws the `N`-row sprite at `I` at (VX, VY) and sets VF to 1 on a
/// collision, else to 0.
pub open spec fn exec_draw(t: VmState) -> (VmState, EffectView) {
    let vx = t.v[op_x(t.opcode)] as int;
    let vy = t.v[op_y(t.opcode)] as int;
    let n = op_n(t.opcode);
    let hit = draw_collides(t.gfx, t.memory, t.i as int, vx, vy, n);
    (
        VmState {
            v: t.v.update(15, if hit { 1u8 } else { 0u8 }),
            gfx: draw_gfx(t.gfx, t.memory, t.i as int, vx, vy, n),
            ..t
        },
        EffectView::SpriteDrawn(drawn_below(t.memory, t.i as int, vx, vy, n, SCREEN_SIZE as int)),
    )
}

/// Whether the sprite turns off a lit pixel below `m`.
pub open spec fn collides_below(
    gfx: Seq<u8>,
    mem: Seq<u8>,
    i: int,
    vx: int,
    vy: int,
    n: int,
    m: int,
) -> bool {
    exists|k: int|
        0 <= k < gfx.len() && k < m && #[trigger] sprite_pixel(mem, i, vx, vy, n, k) && gfx[k]
            == 1u8
}

/// Pixel `a` of sprite row `r` lies at offset `64 * r + a` from the corner.
pub proof fn lemma_row_offset(vx: int, vy: int, r: int, a: int)
    requires
        0 <= r,
        0 <= a < 64,
    ensures
        ((r + vy) * 64 + vx + a - vx - 64 * vy) / 64 == r,
        ((r + vy) * 64 + vx + a - vx - 64 * vy) % 64 == a,
{
    assert((r + vy) * 64 + vx + a - vx - 64 * vy == r * 64 + a) by (nonlinear_arith);
    lemma_fundamental_div_mod_converse(r * 64 + a, 64, r, a);
}

/// A flipped pixel lies between the sprite's corner and the end of its last row.
pub proof fn lemma_pixel_range(mem: Seq<u8>, i: int, vx: int, vy: int, n: int, k: int)
    requires
        sprite_pixel(mem, i, vx, vy, n, k),
    ensures
        vx + 64 * vy <= k < (n + vy) * 64 + vx,
{
    let d = k - vx - 64 * vy;
    let q = d / 64;
    let a = d % 64;
    assert(d == 64 * q + a) by (nonlinear_arith)
        requires
            q == d / 64,
            a == d % 64,
    ;
    assert(64 * q + a < 64 * n) by (nonlinear_arith)
        requires
            q < n,
            a < 8,
    ;
}

/// No pixel between the end of sprite row `r` and the start of the next is flipped.
pub proof fn lemma_row_gap(mem: Seq<u8>, i: int, vx: int, vy: int, n: int, r: int, k: int)
    requires
        0 <= r,
        (r + vy) * 64 + vx + 8 <= k < (r + vy) * 64 + vx + 64,
    ensures
        !sprite_pixel(mem, i, vx, vy, n, k),
{
    let a = k - ((r + vy) * 64 + vx);
    lemma_row_offset(vx, vy, r, a);
}

/// The list of flipped pixels does not grow over a stretch without flipped pixels.
pub proof fn lemma_drawn_below_stable(
    mem: Seq<u8>,
    i: int,
    vx: int,
    vy: int,
    n: int,
    m1: int,
    m2: int,
)
    requires
        m1 <= m2,
        forall|k: int| m1 <= k < m2 ==> !#[trigger] sprite_pixel(mem, i, vx, vy, n, k),
    ensures
        drawn_below(mem, i, vx, vy, n, m2) == drawn_below(mem, i, vx, vy, n, m1),
    decreases m2 - m1,
{
    if m1 < m2 {
        lemma_drawn_below_stable(mem, i, vx, vy, n, m1, m2 - 1);
        if m2 > 0 {
            assert(!sprite_pixel(mem, i, vx, vy, n, m2 - 1));
        }
    }
}

// ---------------------------------------------------------------------------
// The cycle
// ---------------------------------------------------------------------------
/// Executes the decoded instruction `t.opcode`; `rnd` is the random byte
/// that `CXNN` uses.
pub open spec fn dispatch(t: VmState, rnd: u8) -> (VmState, EffectView) {
    let op = t.opcode;
    let g = op_group(op);
    let x = op_x(op);
    let y = op_y(op);
    if g == 0 {
        exec_zero(t)
    } else if g == 1 {
        (VmState { pc: op_nnn(op) as usize, ..t }, EffectView::Nothing)
    } else if g == 2 {
        (exec_call(t), EffectView::Nothing)
    } else if g == 3 {
        (skip_if(t, t.v[x] == op_nn(op)), EffectView::Nothing)
    } else if g == 4 {
        (skip_if(t, t.v[x] != op_nn(op)), EffectView::Nothing)
    } else if g == 5 {
        (skip_if(t, t.v[x] == t.v[y]), EffectView::Nothing)
    } else if g == 6 {
        (set_reg(t, x, op_nn(op) as u8), EffectView::Nothing)
    } else if g == 7 {
        (set_reg(t, x, ((t.v[x] + op_nn(op)) % 256) as u8), EffectView::Nothing)
    } else if g == 8 {
        exec_eight(t)
    } else if g == 9 {
        (skip_if(t, t.v[x] != t.v[y]), EffectView::Nothing)
    } else if g == 10 {
        (VmState { i: op_nnn(op) as usize, ..t }, EffectView::Nothing)
    } else if g == 11 {
        (VmState { pc: (t.v[0] + op_nnn(op)) as usize, ..t }, EffectView::Nothing)
    } else if g == 12 {
        (set_reg(t, x, rnd & (op_nn(op) as u8)), EffectView::Nothing)
    } else if g == 13 {
        exec_draw(t)
    } else if g == 14 {
        exec_e(t)
    } else {
        exec_f(t)
    }
}

/// One cycle: tick the timers, fetch, and execute.
pub open spec fn cycle(s: VmState, rnd: u8) -> (VmState, EffectView) {
    dispatch(decoded(s), rnd)
}

/// The decoded instruction neither indexes past an array nor overflows.
pub open spec fn instr_ok(t: VmState) -> bool {
    let op = t.opcode;
    let g = op_group(op);
    let x = op_x(op);
    let code = op_nn(op);
    &&& (g == 0 && op_nnn(op) == 0x0EE ==> 1 <= t.sp < STACK_SIZE)
    &&& (g == 2 ==> t.sp + 1 < STACK_SIZE)
    &&& (g == 13 ==> op_n(op) == 0 || t.i + op_n(op) <= MEMORY_SIZE)
    &&& (g == 15 && code == 0x1E ==> t.i + t.v[x] <= usize::MAX)
    &&& (g == 15 && code == 0x29 ==> t.v[x] <= 35)
    &&& (g == 15 && code == 0x33 ==> t.i + 2 < MEMORY_SIZE)
    &&& (g == 15 && (code == 0x55 || code == 0x65) ==> t.i + x < MEMORY_SIZE)
}

/// The cycle runs to its end from `s`: the opcode lies in memory and the
/// instruction neither indexes past an array nor overflows.
pub open spec fn cycle_ok(s: VmState) -> bool {
    &&& state_wf(s)
    &&& s.pc + 1 < MEMORY_SIZE
    &&& instr_ok(decoded(s))
}

} // verus!
