//! Properties of the machine that span instructions and cycles.

use vstd::prelude::*;
use vstd::arithmetic::div_mod::lemma_fundamental_div_mod_converse;
use crate::key_check::{is_exit, key_step, keycheck_result, scan_keys, KeyCheck, KeyEvent, Keycode};
use crate::model::{
    cycle, cycle_ok, decoded, draw_collides, draw_gfx, drawn_below, fetch, load_registers,
    op_group, op_n, op_nn, op_nnn, op_x, op_y, sprite_pixel, state_wf, store_bcd,
    store_registers, VmState, MEMORY_SIZE, NO_KEY, NUM_REGISTERS, STACK_SIZE,
};

verus! {

/// A subroutine call `2NNN` followed by a return `00EE` at `NNN` brings the
/// program counter back to the instruction after the call and the stack
/// pointer back to where it was.
pub proof fn law_call_then_return(s: VmState, r1: u8, r2: u8)
    requires
        state_wf(s),
        s.pc + 1 < MEMORY_SIZE,
        op_group(fetch(s)) == 2,
        s.sp + 1 < STACK_SIZE,
        op_nnn(fetch(s)) + 1 < MEMORY_SIZE,
        s.memory[op_nnn(fetch(s))] == 0x00u8,
        s.memory[op_nnn(fetch(s)) + 1] == 0xEEu8,
    ensures
        cycle_ok(s),
        cycle_ok(cycle(s, r1).0),
        cycle(cycle(s, r1).0, r2).0.pc == s.pc + 2,
        cycle(cycle(s, r1).0, r2).0.sp == s.sp,
{
    let s1 = cycle(s, r1).0;
    assert(s1.pc == op_nnn(fetch(s)));
    assert(fetch(s1) == 0x00EE);
    assert(op_group(fetch(s1)) == 0);
    assert(op_nnn(fetch(s1)) == 0x0EE);
}

/// Each cycle counts both timers down by one, stopping at zero, unless the
/// instruction sets that timer (`FX15` for the delay timer, `FX18` for the
/// sound timer).
pub proof fn law_timers_count_down(s: VmState, r: u8)
    requires
        cycle_ok(s),
    ensures
        !(op_group(fetch(s)) == 15 && op_nn(fetch(s)) == 0x15) ==> cycle(s, r).0.delay_timer
            == if s.delay_timer >= 1 {
            s.delay_timer - 1
        } else {
            0
        },
        !(op_group(fetch(s)) == 15 && op_nn(fetch(s)) == 0x18) ==> cycle(s, r).0.sound_timer
            == if s.sound_timer >= 1 {
            s.sound_timer - 1
        } else {
            0
        },
{
}

/// Only `CXNN` depends on the random byte: every other cycle is determined
/// by the state alone.
pub proof fn law_random_only_in_cxnn(s: VmState, r1: u8, r2: u8)
    requires
        cycle_ok(s),
        op_group(fetch(s)) != 12,
    ensures
        cycle(s, r1) == cycle(s, r2),
{
}

/// Every instruction but the jumps (`0NNN`, `1NNN`, `BNNN`), the call and
/// the return moves the program counter past itself, and past the next
/// instruction too when it skips (`3XNN`, `4XNN`, `5XY0`, `9XY0`, `EX9E`, `EXA1`).
pub proof fn law_program_counter_advances(s: VmState, r: u8)
    requires
        cycle_ok(s),
        op_group(fetch(s)) != 0 || op_nnn(fetch(s)) == 0x0E0,
        op_group(fetch(s)) != 1,
        op_group(fetch(s)) != 2,
        op_group(fetch(s)) != 11,
    ensures
        cycle(s, r).0.pc == s.pc + 2 || cycle(s, r).0.pc == s.pc + 4,
        cycle(s, r).0.pc == s.pc + 4 ==> (op_group(fetch(s)) == 3 || op_group(fetch(s)) == 4
            || op_group(fetch(s)) == 5 || op_group(fetch(s)) == 9 || op_group(fetch(s)) == 14),
{
}

/// Drawing the same sprite twice at the same place gives back the screen.
pub proof fn law_draw_twice_restores(
    gfx: Seq<u8>,
    mem: Seq<u8>,
    i: int,
    vx: int,
    vy: int,
    n: int,
)
    ensures
        draw_gfx(draw_gfx(gfx, mem, i, vx, vy, n), mem, i, vx, vy, n) == gfx,
{
    let once = draw_gfx(gfx, mem, i, vx, vy, n);
    let twice = draw_gfx(once, mem, i, vx, vy, n);
    assert forall|k: int| 0 <= k < gfx.len() implies twice[k] == gfx[k] by {
        let g = gfx[k];
        assert((g ^ 1u8) ^ 1u8 == g) by (bit_vector);
    }
    assert(twice =~= gfx);
}

/// On a screen of pixels that are 0 or 1, drawing a sprite a second time at
/// the same place collides exactly when the first drawing lit a pixel.
pub proof fn law_redraw_collides(gfx: Seq<u8>, mem: Seq<u8>, i: int, vx: int, vy: int, n: int)
    requires
        forall|k: int| 0 <= k < gfx.len() ==> #[trigger] gfx[k] <= 1,
    ensures
        draw_collides(draw_gfx(gfx, mem, i, vx, vy, n), mem, i, vx, vy, n) <==> exists|k: int|
            0 <= k < gfx.len() && #[trigger] sprite_pixel(mem, i, vx, vy, n, k) && gfx[k] == 0u8,
{
    let once = draw_gfx(gfx, mem, i, vx, vy, n);
    if draw_collides(once, mem, i, vx, vy, n) {
        let k = choose|k: int|
            0 <= k < once.len() && #[trigger] sprite_pixel(mem, i, vx, vy, n, k) && once[k]
                == 1u8;
        let g = gfx[k];
        assert(g <= 1 && (g ^ 1u8) == 1u8 ==> g == 0u8) by (bit_vector);
    }
    if exists|k: int|
        0 <= k < gfx.len() && #[trigger] sprite_pixel(mem, i, vx, vy, n, k) && gfx[k] == 0u8 {
        let k = choose|k: int|
            0 <= k < gfx.len() && #[trigger] sprite_pixel(mem, i, vx, vy, n, k) && gfx[k] == 0u8;
        assert((0u8 ^ 1u8) == 1u8) by (bit_vector);
        assert(once[k] == 1u8);
    }
}

/// A cycle that executes `DXYN` (with neither X nor Y naming VF) followed
/// by a cycle that executes the same `DXYN` leaves the screen as it was.
pub proof fn law_draw_cycle_twice_restores(s: VmState, r1: u8, r2: u8)
    requires
        cycle_ok(s),
        op_group(fetch(s)) == 13,
        op_x(fetch(s)) != 15,
        op_y(fetch(s)) != 15,
        cycle_ok(cycle(s, r1).0),
        fetch(cycle(s, r1).0) == fetch(s),
    ensures
        cycle(cycle(s, r1).0, r2).0.gfx == s.gfx,
{
    let t = decoded(s);
    let s1 = cycle(s, r1).0;
    let op = fetch(s);
    let vx = t.v[op_x(op)] as int;
    let vy = t.v[op_y(op)] as int;
    assert(s1.v[op_x(op)] == t.v[op_x(op)]);
    assert(s1.v[op_y(op)] == t.v[op_y(op)]);
    law_draw_twice_restores(s.gfx, s.memory, s.i as int, vx, vy, op_n(op));
}

/// `FX33` writes three decimal digits that make up VX, and leaves every
/// other cell of memory as it was.
pub proof fn law_bcd_digits(mem: Seq<u8>, i: int, val: u8)
    requires
        0 <= i,
        i + 2 < mem.len(),
    ensures
        store_bcd(mem, i, val)[i] < 10,
        store_bcd(mem, i, val)[i + 1] < 10,
        store_bcd(mem, i, val)[i + 2] < 10,
        store_bcd(mem, i, val)[i] * 100 + store_bcd(mem, i, val)[i + 1] * 10 + store_bcd(
            mem,
            i,
            val,
        )[i + 2] == val,
        forall|j: int|
            0 <= j < mem.len() && (j < i || j > i + 2) ==> #[trigger] store_bcd(mem, i, val)[j]
                == mem[j],
{
}

/// Storing registers V0..=VX with `FX55` and loading them back from the
/// same address with `FX65` gives back their values; the registers above
/// VX keep theirs.
pub proof fn law_store_then_load_registers(
    mem: Seq<u8>,
    v: Seq<u8>,
    w: Seq<u8>,
    i: int,
    x: int,
)
    requires
        v.len() == NUM_REGISTERS,
        w.len() == NUM_REGISTERS,
        0 <= x < NUM_REGISTERS,
        0 <= i,
        i + x < mem.len(),
    ensures
        load_registers(store_registers(mem, v, i, x), w, i, x) == Seq::new(
            NUM_REGISTERS as nat,
            |z: int|
                if z <= x {
                    v[z]
                } else {
                    w[z]
                },
        ),
{
    let got = load_registers(store_registers(mem, v, i, x), w, i, x);
    assert(got =~= Seq::new(NUM_REGISTERS as nat, |z: int| if z <= x { v[z] } else { w[z] }));
}

/// `8XY4` (with X not VF): the new VX and the carry in VF make up the sum
/// of VX and VY.
pub proof fn law_add_with_carry(s: VmState, r: u8)
    requires
        cycle_ok(s),
        op_group(fetch(s)) == 8,
        op_n(fetch(s)) == 4,
        op_x(fetch(s)) != 15,
    ensures
        cycle(s, r).0.v[op_x(fetch(s))] + 256 * cycle(s, r).0.v[15] == s.v[op_x(fetch(s))]
            + s.v[op_y(fetch(s))],
{
}

/// `8XY5` (with X not VF): the new VX is VX - VY modulo 256, and VF is 1
/// exactly when there was no borrow.
pub proof fn law_subtract_with_borrow(s: VmState, r: u8)
    requires
        cycle_ok(s),
        op_group(fetch(s)) == 8,
        op_n(fetch(s)) == 5,
        op_x(fetch(s)) != 15,
    ensures
        cycle(s, r).0.v[op_x(fetch(s))] == (s.v[op_x(fetch(s))] - s.v[op_y(fetch(s))]) % 256,
        cycle(s, r).0.v[15] == (if s.v[op_x(fetch(s))] >= s.v[op_y(fetch(s))] {
            1int
        } else {
            0int
        }),
{
    let t = decoded(s);
    let op = t.opcode;
    let vx = t.v[op_x(op)] as int;
    let vy = t.v[op_y(op)] as int;
    assert(t.v == s.v);
    if vx < vy {
        assert((vx - vy) % 256 == vx - vy + 256) by {
            lemma_fundamental_div_mod_converse(vx - vy, 256, -1, vx - vy + 256);
        }
    } else {
        assert((vx - vy) % 256 == vx - vy) by {
            lemma_fundamental_div_mod_converse(vx - vy, 256, 0, vx - vy);
        }
    }
}

/// Looking at the keyboard when nothing happened keeps the key held.
pub proof fn law_keycheck_no_events(keypress: u8)
    ensures
        keycheck_result(Seq::empty(), keypress) == KeyCheck::Key(keypress),
{
}

/// The key register holds a key from 0 to 15 or `NO_KEY`, whatever the events.
pub proof fn law_keycheck_in_range(events: Seq<KeyEvent>, keypress: u8)
    requires
        keypress <= 15 || keypress == NO_KEY,
    ensures
        keycheck_result(events, keypress) matches KeyCheck::Key(k) ==> (k <= 15 || k == NO_KEY),
{
    lemma_scan_keys_in_range(events, keypress);
}

/// While a key is held, looking at the keyboard gives either that key or
/// no key: a different key takes one more look to be seen.
pub proof fn law_keycheck_held_key(events: Seq<KeyEvent>, keypress: u8)
    requires
        keypress != NO_KEY,
    ensures
        keycheck_result(events, keypress) matches KeyCheck::Key(k) ==> (k == keypress || k
            == NO_KEY),
{
}

/// A request to leave among the events ends the program.
pub proof fn law_keycheck_exit(events: Seq<KeyEvent>, keypress: u8, j: int)
    requires
        0 <= j < events.len(),
        is_exit(events[j]),
    ensures
        keycheck_result(events, keypress) == KeyCheck::Exit,
{
}

proof fn lemma_scan_keys_in_range(events: Seq<KeyEvent>, out: u8)
    requires
        out <= 15 || out == NO_KEY,
    ensures
        scan_keys(events, out) <= 15 || scan_keys(events, out) == NO_KEY,
    decreases events.len(),
{
    if events.len() > 0 {
        lemma_scan_keys_in_range(events.drop_last(), out);
        let prev = scan_keys(events.drop_last(), out);
        assert(key_step(prev, events.last()) <= 15 || key_step(prev, events.last()) == NO_KEY);
    }
}

/// The pixels that a drawing reports are listed in ascending order, and
/// each of them is one the sprite flips.
pub proof fn law_drawn_pixels_ascending(mem: Seq<u8>, i: int, vx: int, vy: int, n: int, m: int)
    ensures
        forall|j: int|
            0 <= j < drawn_below(mem, i, vx, vy, n, m).len() ==> {
                let k = #[trigger] drawn_below(mem, i, vx, vy, n, m)[j];
                &&& k < m
                &&& sprite_pixel(mem, i, vx, vy, n, k as int)
            },
        forall|j1: int, j2: int|
            0 <= j1 < j2 < drawn_below(mem, i, vx, vy, n, m).len() ==> drawn_below(
                mem,
                i,
                vx,
                vy,
                n,
                m,
            )[j1] < drawn_below(mem, i, vx, vy, n, m)[j2],
    decreases m,
{
    if m > 0 {
        law_drawn_pixels_ascending(mem, i, vx, vy, n, m - 1);
        let prev = drawn_below(mem, i, vx, vy, n, m - 1);
        let cur = drawn_below(mem, i, vx, vy, n, m);
        if sprite_pixel(mem, i, vx, vy, n, m - 1) {
            assert(cur == prev.push((m - 1) as usize));
            assert forall|j: int| 0 <= j < cur.len() implies #[trigger] cur[j] < m
                && sprite_pixel(mem, i, vx, vy, n, cur[j] as int) by {
                if j < prev.len() {
                    assert(cur[j] == prev[j]);
                }
            }
            assert forall|j1: int, j2: int| 0 <= j1 < j2 < cur.len() implies cur[j1] < cur[j2] by {
                assert(cur[j1] == prev[j1]);
                if j2 < prev.len() {
                    assert(cur[j2] == prev[j2]);
                }
            }
        }
    }
}

/// One event, with key `k` held before: the host keys Space, A, S, X, Z,
/// C, U, D, W, E, R, F, K, M, H, N stand for machine keys 0 to 15 in that
/// order, and pressing one is seen when no key or that same key was held,
/// and reads as a release when another key was held; a key going up reads
/// as a release; an unmapped key going down or any other event leaves the
/// key as it was; closing the window or pressing Escape exits.
pub proof fn law_keycheck_single_event(k: u8)
    ensures
        keycheck_result(seq![KeyEvent::KeyDown(Keycode::Space)], k) == (if k == NO_KEY || k == 0u8 {
            KeyCheck::Key(0u8)
        } else {
            KeyCheck::Key(NO_KEY)
        }),
        keycheck_result(seq![KeyEvent::KeyDown(Keycode::A)], k) == (if k == NO_KEY || k == 1u8 {
            KeyCheck::Key(1u8)
        } else {
            KeyCheck::Key(NO_KEY)
        }),
        keycheck_result(seq![KeyEvent::KeyDown(Keycode::S)], k) == (if k == NO_KEY || k == 2u8 {
            KeyCheck::Key(2u8)
        } else {
            KeyCheck::Key(NO_KEY)
        }),
        keycheck_result(seq![KeyEvent::KeyDown(Keycode::X)], k) == (if k == NO_KEY || k == 3u8 {
            KeyCheck::Key(3u8)
        } else {
            KeyCheck::Key(NO_KEY)
        }),
        keycheck_result(seq![KeyEvent::KeyDown(Keycode::Z)], k) == (if k == NO_KEY || k == 4u8 {
            KeyCheck::Key(4u8)
        } else {
            KeyCheck::Key(NO_KEY)
        }),
        keycheck_result(seq![KeyEvent::KeyDown(Keycode::C)], k) == (if k == NO_KEY || k == 5u8 {
            KeyCheck::Key(5u8)
        } else {
            KeyCheck::Key(NO_KEY)
        }),
        keycheck_result(seq![KeyEvent::KeyDown(Keycode::U)], k) == (if k == NO_KEY || k == 6u8 {
            KeyCheck::Key(6u8)
        } else {
            KeyCheck::Key(NO_KEY)
        }),
        keycheck_result(seq![KeyEvent::KeyDown(Keycode::D)], k) == (if k == NO_KEY || k == 7u8 {
            KeyCheck::Key(7u8)
        } else {
            KeyCheck::Key(NO_KEY)
        }),
        keycheck_result(seq![KeyEvent::KeyDown(Keycode::W)], k) == (if k == NO_KEY || k == 8u8 {
            KeyCheck::Key(8u8)
        } else {
            KeyCheck::Key(NO_KEY)
        }),
        keycheck_result(seq![KeyEvent::KeyDown(Keycode::E)], k) == (if k == NO_KEY || k == 9u8 {
            KeyCheck::Key(9u8)
        } else {
            KeyCheck::Key(NO_KEY)
        }),
        keycheck_result(seq![KeyEvent::KeyDown(Keycode::R)], k) == (if k == NO_KEY || k == 10u8 {
            KeyCheck::Key(10u8)
        } else {
            KeyCheck::Key(NO_KEY)
        }),
        keycheck_result(seq![KeyEvent::KeyDown(Keycode::F)], k) == (if k == NO_KEY || k == 11u8 {
            KeyCheck::Key(11u8)
        } else {
            KeyCheck::Key(NO_KEY)
        }),
        keycheck_result(seq![KeyEvent::KeyDown(Keycode::K)], k) == (if k == NO_KEY || k == 12u8 {
            KeyCheck::Key(12u8)
        } else {
            KeyCheck::Key(NO_KEY)
        }),
        keycheck_result(seq![KeyEvent::KeyDown(Keycode::M)], k) == (if k == NO_KEY || k == 13u8 {
            KeyCheck::Key(13u8)
        } else {
            KeyCheck::Key(NO_KEY)
        }),
        keycheck_result(seq![KeyEvent::KeyDown(Keycode::H)], k) == (if k == NO_KEY || k == 14u8 {
            KeyCheck::Key(14u8)
        } else {
            KeyCheck::Key(NO_KEY)
        }),
        keycheck_result(seq![KeyEvent::KeyDown(Keycode::N)], k) == (if k == NO_KEY || k == 15u8 {
            KeyCheck::Key(15u8)
        } else {
            KeyCheck::Key(NO_KEY)
        }),
        keycheck_result(seq![KeyEvent::KeyDown(Keycode::Other)], k) == KeyCheck::Key(k),
        keycheck_result(seq![KeyEvent::Other], k) == KeyCheck::Key(k),
        keycheck_result(seq![KeyEvent::KeyUp], k) == KeyCheck::Key(NO_KEY),
        keycheck_result(seq![KeyEvent::Quit], k) == KeyCheck::Exit,
        keycheck_result(seq![KeyEvent::KeyDown(Keycode::Escape)], k) == KeyCheck::Exit,
{
    single_event(KeyEvent::KeyDown(Keycode::Space), k);
    single_event(KeyEvent::KeyDown(Keycode::A), k);
    single_event(KeyEvent::KeyDown(Keycode::S), k);
    single_event(KeyEvent::KeyDown(Keycode::X), k);
    single_event(KeyEvent::KeyDown(Keycode::Z), k);
    single_event(KeyEvent::KeyDown(Keycode::C), k);
    single_event(KeyEvent::KeyDown(Keycode::U), k);
    single_event(KeyEvent::KeyDown(Keycode::D), k);
    single_event(KeyEvent::KeyDown(Keycode::W), k);
    single_event(KeyEvent::KeyDown(Keycode::E), k);
    single_event(KeyEvent::KeyDown(Keycode::R), k);
    single_event(KeyEvent::KeyDown(Keycode::F), k);
    single_event(KeyEvent::KeyDown(Keycode::K), k);
    single_event(KeyEvent::KeyDown(Keycode::M), k);
    single_event(KeyEvent::KeyDown(Keycode::H), k);
    single_event(KeyEvent::KeyDown(Keycode::N), k);
    single_event(KeyEvent::KeyDown(Keycode::Other), k);
    single_event(KeyEvent::Other, k);
    single_event(KeyEvent::KeyUp, k);
    single_event(KeyEvent::Quit, k);
    single_event(KeyEvent::KeyDown(Keycode::Escape), k);
}

proof fn single_event(e: KeyEvent, k: u8)
    ensures
        keycheck_result(seq![e], k) == (if is_exit(e) {
            KeyCheck::Exit
        } else if key_step(k, e) != k && k != NO_KEY {
            KeyCheck::Key(NO_KEY)
        } else {
            KeyCheck::Key(key_step(k, e))
        }),
{
    let ev = seq![e];
    assert(ev.drop_last() =~= Seq::<KeyEvent>::empty());
    assert(scan_keys(ev.drop_last(), k) == k);
    assert(ev.last() == e);
    assert(scan_keys(ev, k) == key_step(k, e));
    if is_exit(e) {
        assert(is_exit(ev[0]));
    }
}

/// Events that are neither a mapped key going down, a key going up nor a
/// request to leave (unmapped key presses and other events) leave the key
/// held as it was.
pub proof fn law_keycheck_ignores_unmapped(events: Seq<KeyEvent>, k: u8)
    requires
        forall|j: int|
            0 <= j < events.len() ==> #[trigger] events[j] == KeyEvent::KeyDown(Keycode::Other)
                || events[j] == KeyEvent::Other,
    ensures
        keycheck_result(events, k) == KeyCheck::Key(k),
{
    lemma_scan_unmapped(events, k);
}

proof fn lemma_scan_unmapped(events: Seq<KeyEvent>, k: u8)
    requires
        forall|j: int|
            0 <= j < events.len() ==> #[trigger] events[j] == KeyEvent::KeyDown(Keycode::Other)
                || events[j] == KeyEvent::Other,
    ensures
        scan_keys(events, k) == k,
    decreases events.len(),
{
    if events.len() > 0 {
        let front = events.drop_last();
        assert forall|j: int| 0 <= j < front.len() implies #[trigger] front[j] == KeyEvent::KeyDown(
            Keycode::Other,
        ) || front[j] == KeyEvent::Other by {
            assert(front[j] == events[j]);
        }
        lemma_scan_unmapped(front, k);
        assert(events.last() == events[events.len() - 1]);
    }
}

/// A cycle that runs to its end keeps the sizes of the machine's arrays.
pub proof fn law_cycle_keeps_sizes(s: VmState, r: u8)
    requires
        cycle_ok(s),
    ensures
        state_wf(cycle(s, r).0),
{
}

} // verus!
