//! The machine itself: its registers, memory and screen, and the
//! execution of one cycle.

use rand::Rng;
use vstd::prelude::*;
use crate::key_check::{keycheck, keycheck_result, KeyCheck, KeyEvent};
use crate::model::{
    blank_screen, collides_below, cycle, cycle_ok, decoded, draw_collides, draw_gfx, drawn_below,
    exec_draw, exec_e, exec_eight, exec_f, exec_zero, font, instr_ok, lemma_drawn_below_stable,
    lemma_pixel_range, lemma_row_gap, lemma_row_offset, load_registers, loaded_memory, op_group,
    op_n, op_nn, op_nnn, op_x, op_y, set_reg, sprite_pixel, state_wf, store_registers, EffectView,
    VmState, FONT_START, MAX_ROM_SIZE, MEMORY_SIZE, NO_KEY, NUM_REGISTERS, PROGRAM_START,
    SCREEN_SIZE, STACK_SIZE,
};

verus! {

/// The registers, memory, stack, timers and screen of the machine.
#[allow(non_camel_case_types)]
pub struct Chip8_VM {
    keypress: u8,
    name: String,
    memory: Vec<u8>,
    v: Vec<u8>,
    stack: Vec<u16>,
    sp: usize,
    delay_timer: u8,
    sound_timer: u8,
    opcode: u16,
    i: usize,
    pc: usize,
    gfx: Vec<u8>,
}

impl View for Chip8_VM {
    type V = VmState;

    closed spec fn view(&self) -> VmState {
        VmState {
            memory: self.memory@,
            v: self.v@,
            stack: self.stack@,
            sp: self.sp,
            delay_timer: self.delay_timer,
            sound_timer: self.sound_timer,
            opcode: self.opcode,
            i: self.i,
            pc: self.pc,
            gfx: self.gfx@,
            keypress: self.keypress,
        }
    }
}

/// The state of a freshly built machine.
pub open spec fn initial_state() -> VmState {
    VmState {
        memory: Seq::new(MEMORY_SIZE as nat, |j: int| 0u8),
        v: Seq::new(NUM_REGISTERS as nat, |j: int| 0u8),
        stack: Seq::new(STACK_SIZE as nat, |j: int| 0u16),
        sp: 0,
        delay_timer: 0,
        sound_timer: 0,
        opcode: 0,
        i: 0,
        pc: PROGRAM_START,
        gfx: Seq::new(SCREEN_SIZE as nat, |j: int| 0u8),
        keypress: NO_KEY,
    }
}

impl Chip8_VM {
    /// The name of the game loaded, as a sequence of characters.
    pub closed spec fn name_view(&self) -> Seq<char> {
        self.name@
    }

    fn new() -> (vm: Chip8_VM)
        ensures
            vm@ == initial_state(),
            vm.name_view() == Seq::<char>::empty(),
    {
        let mem: Vec<u8> = vec![0u8; 4096];
        let reg: Vec<u8> = vec![0u8; 16];
        let st: Vec<u16> = vec![0u16; 16];
        let d_timer: u8 = 0;
        let s_timer: u8 = 0;
        let gx: Vec<u8> = vec![0u8; 2048];
        let vm = Chip8_VM {
            keypress: 17,
            name: String::new(),
            memory: mem,
            v: reg,
            stack: st,
            sp: 0,
            delay_timer: d_timer,
            sound_timer: s_timer,
            opcode: 0,
            i: 0,
            pc: 512,
            gfx: gx,
        };
        assert(vm@ =~= initial_state());
        vm
    }
}

/// What a cycle asks of the program that shows the screen.
#[derive(Debug, PartialEq, Eq)]
pub enum Effect {
    /// Nothing to show.
    Nothing,
    /// The screen was cleared.
    ScreenCleared,
    /// A sprite was drawn; these pixels (indices into the screen, ascending) flipped.
    SpriteDrawn(Vec<usize>),
    /// The program waits for a key, to be stored in this register.
    AwaitKey(usize),
    /// An `E` instruction with an unknown low byte.
    UnknownE(u16),
    /// An `8` instruction with an unknown low nibble.
    UnknownEight,
    /// An `F` instruction with an unknown low byte.
    UnknownF(u16),
}

impl View for Effect {
    type V = EffectView;

    open spec fn view(&self) -> EffectView {
        match self {
            Effect::Nothing => EffectView::Nothing,
            Effect::ScreenCleared => EffectView::ScreenCleared,
            Effect::SpriteDrawn(pixels) => EffectView::SpriteDrawn(pixels@),
            Effect::AwaitKey(x) => EffectView::AwaitKey(*x),
            Effect::UnknownE(op) => EffectView::UnknownE(*op),
            Effect::UnknownEight => EffectView::UnknownEight,
            Effect::UnknownF(op) => EffectView::UnknownF(*op),
        }
    }
}

/// The thread-local random number generator of `rand`.
#[verifier::external_type_specification]
#[verifier::external_body]
pub struct ExThreadRng(rand::rngs::ThreadRng);

/// `rand::thread_rng`: a handle on the thread-local generator. Nothing is
/// claimed of it.
#[verifier::external_body]
fn thread_rng() -> rand::rngs::ThreadRng {
    rand::thread_rng()
}

/// `rand::Rng::gen_range` over `0..256`: a random number that lies in the
/// range; which one is left open.
#[verifier::external_body]
fn gen_range_byte(rng: &mut rand::rngs::ThreadRng) -> (n: u16)
    ensures
        n < 256,
{
    rng.gen_range(0..256)
}

/// The sprites of the hexadecimal digits.
fn fontset() -> (f: Vec<u8>)
    ensures
        f@ == font(),
{
    let f = vec![
        0xF0u8, 0x90, 0x90, 0x90, 0xF0, // 0
        0x20, 0x60, 0x20, 0x20, 0x70, // 1
        0xF0, 0x10, 0xF0, 0x80, 0xF0, // 2
        0xF0, 0x10, 0xF0, 0x10, 0xF0, // 3
        0x90, 0x90, 0xF0, 0x10, 0x10, // 4
        0xF0, 0x80, 0xF0, 0x10, 0xF0, // 5
        0xF0, 0x80, 0xF0, 0x90, 0xF0, // 6
        0xF0, 0x10, 0x20, 0x40, 0x40, // 7
        0xF0, 0x90, 0xF0, 0x90, 0xF0, // 8
        0xF0, 0x90, 0xF0, 0x10, 0xF0, // 9
        0xF0, 0x90, 0xF0, 0x90, 0x90, // A
        0xE0, 0x90, 0xE0, 0x90, 0xE0, // B
        0xF0, 0x80, 0x80, 0x80, 0xF0, // C
        0xE0, 0x90, 0x90, 0x90, 0xE0, // D
        0xF0, 0x80, 0xF0, 0x80, 0xF0, // E
        0xF0, 0x80, 0xF0, 0x80, 0x80, // F
    ];
    assert(f@ =~= font());
    f
}

/// The emulator.
pub struct Chip8 {
    vm: Chip8_VM,
}

impl View for Chip8 {
    type V = VmState;

    closed spec fn view(&self) -> VmState {
        self.vm@
    }
}

/// The bit masks of the decoder compute the nibbles of the model.
proof fn lemma_decode(op: u16)
    ensures
        (op & 0xF000u16) as int == op_group(op) * 4096,
        ((0x0F00u16 & op) >> 8u16) as int == op_x(op),
        ((0x00F0u16 & op) >> 4u16) as int == op_y(op),
        (0x000Fu16 & op) as int == op_n(op),
        (0x00FFu16 & op) as int == op_nn(op),
        (0x0FFFu16 & op) as int == op_nnn(op),
        (0x0F00u16 & op) << 8u16 == 0u16,
        0 <= op_group(op) < 16,
        0 <= op_x(op) < 16,
        0 <= op_y(op) < 16,
        0 <= op_n(op) < 16,
        0 <= op_nn(op) < 256,
        0 <= op_nnn(op) < 4096,
{
    assert(op / 4096 < 16) by (bit_vector);
    assert((op / 256) % 16 < 16) by (bit_vector);
    assert((op / 16) % 16 < 16) by (bit_vector);
    assert(op % 16 < 16) by (bit_vector);
    assert(op % 256 < 256) by (bit_vector);
    assert(op % 4096 < 4096) by (bit_vector);
    assert((op & 0xF000u16) == (op / 4096) * 4096) by (bit_vector);
    assert(((0x0F00u16 & op) >> 8u16) == (op / 256) % 16) by (bit_vector);
    assert(((0x00F0u16 & op) >> 4u16) == (op / 16) % 16) by (bit_vector);
    assert((0x000Fu16 & op) == op % 16) by (bit_vector);
    assert((0x00FFu16 & op) == op % 256) by (bit_vector);
    assert((0x0FFFu16 & op) == op % 4096) by (bit_vector);
    assert((0x0F00u16 & op) << 8u16 == 0u16) by (bit_vector);
}

/// Partway through drawing a sprite from state `t`: the pixels below `m`
/// are drawn, the flipped ones listed in `changed`, and VF tells whether one
/// of them was lit.
spec fn drawn_upto(
    s: VmState,
    t: VmState,
    changed: Seq<usize>,
    vx: int,
    vy: int,
    n: int,
    m: int,
) -> bool {
    let mem = t.memory;
    let i = t.i as int;
    &&& s == VmState { v: s.v, gfx: s.gfx, ..t }
    &&& s.v == t.v.update(
        15,
        if collides_below(t.gfx, mem, i, vx, vy, n, m) {
            1u8
        } else {
            0u8
        },
    )
    &&& s.gfx.len() == t.gfx.len()
    &&& forall|k: int|
        0 <= k < s.gfx.len() ==> #[trigger] s.gfx[k] == (if sprite_pixel(mem, i, vx, vy, n, k) && k
            < m {
            t.gfx[k] ^ 1u8
        } else {
            t.gfx[k]
        })
    &&& changed == drawn_below(mem, i, vx, vy, n, m)
}

/// Nothing is drawn below the sprite's corner.
proof fn lemma_draw_start(t: VmState, vx: int, vy: int, n: int)
    requires
        state_wf(t),
        0 <= vx,
        0 <= vy,
    ensures
        drawn_upto(
            (VmState { v: t.v.update(15, 0u8), ..t }),
            t,
            Seq::empty(),
            vx,
            vy,
            n,
            vy * 64 + vx,
        ),
{
    let mem = t.memory;
    let i = t.i as int;
    assert forall|k: int| 0 <= k < vy * 64 + vx implies !#[trigger] sprite_pixel(
        mem,
        i,
        vx,
        vy,
        n,
        k,
    ) by {}
    lemma_drawn_below_stable(mem, i, vx, vy, n, 0, vy * 64 + vx);
    assert(!collides_below(t.gfx, mem, i, vx, vy, n, vy * 64 + vx));
    let s = VmState { v: t.v.update(15, 0u8), ..t };
    assert(s == VmState { v: s.v, gfx: s.gfx, ..t });
}

/// Once every row is drawn, the partial drawing is the whole one.
proof fn lemma_draw_finish(s: VmState, t: VmState, changed: Seq<usize>, vx: int, vy: int, n: int)
    requires
        state_wf(t),
        0 <= vx,
        0 <= vy,
        0 <= n,
        drawn_upto(s, t, changed, vx, vy, n, (n + vy) * 64 + vx),
    ensures
        s == (VmState {
            v: t.v.update(
                15,
                if draw_collides(t.gfx, t.memory, t.i as int, vx, vy, n) {
                    1u8
                } else {
                    0u8
                },
            ),
            gfx: draw_gfx(t.gfx, t.memory, t.i as int, vx, vy, n),
            ..t
        }),
        changed == drawn_below(t.memory, t.i as int, vx, vy, n, SCREEN_SIZE as int),
{
    let mem = t.memory;
    let i = t.i as int;
    let end = (n + vy) * 64 + vx;
    assert forall|k: int| #[trigger] sprite_pixel(mem, i, vx, vy, n, k) implies k < end by {
        lemma_pixel_range(mem, i, vx, vy, n, k);
    }
    if end <= SCREEN_SIZE {
        lemma_drawn_below_stable(mem, i, vx, vy, n, end, SCREEN_SIZE as int);
    } else {
        lemma_drawn_below_stable(mem, i, vx, vy, n, SCREEN_SIZE as int, end);
    }
    assert(collides_below(t.gfx, mem, i, vx, vy, n, end) == draw_collides(
        t.gfx,
        mem,
        i,
        vx,
        vy,
        n,
    ));
    assert(s.gfx =~= draw_gfx(t.gfx, mem, i, vx, vy, n));
}

/// Two bytes joined big-endian.
proof fn lemma_join_bytes(hi: u8, lo: u8)
    ensures
        ((hi as u16) << 8u16) ^ (lo as u16) == hi as int * 256 + lo as int,
{
    assert(((hi as u16) << 8u16) ^ (lo as u16) == hi as u16 * 256 + lo as u16) by (bit_vector);
}

/// Bits of a sprite row are 0 or 1, and flipping a pixel with bit 1 is `^ 1`.
proof fn lemma_pixel_bits(row: u8, shift: u8, cell: u8)
    requires
        shift < 8,
    ensures
        (row >> shift) & 1u8 <= 1u8,
        ((row >> shift) & 1u8) ^ cell != cell <==> (row >> shift) & 1u8 == 1u8,
        (row >> shift) & 1u8 == 1u8 ==> ((row >> shift) & 1u8) ^ cell == cell ^ 1u8,
        (row >> shift) & 1u8 == 1u8 ==> (((row >> shift) & 1u8) ^ cell == 0u8 <==> cell == 1u8),
{
    assert((row >> shift) & 1u8 <= 1u8) by (bit_vector);
    assert(((row >> shift) & 1u8) ^ cell != cell <==> (row >> shift) & 1u8 == 1u8) by (bit_vector);
    assert((row >> shift) & 1u8 == 1u8 ==> ((row >> shift) & 1u8) ^ cell == cell ^ 1u8)
        by (bit_vector);
    assert((row >> shift) & 1u8 == 1u8 ==> (((row >> shift) & 1u8) ^ cell == 0u8 <==> cell == 1u8))
        by (bit_vector);
}

impl Chip8 {
    /// The machine's arrays have their sizes.
    pub open spec fn wf(&self) -> bool {
        state_wf(self@)
    }

    /// The name of the game loaded.
    pub closed spec fn name_view(&self) -> Seq<char> {
        self.vm.name_view()
    }

    /// A machine with zeroed memory, registers, stack and screen, no key
    /// held, and the program counter at the start of the program area.
    pub fn initialize() -> (c: Chip8)
        ensures
            c.wf(),
            c@ == initial_state(),
            c.name_view() == Seq::<char>::empty(),
            c@.pc == 0x200,
            c@.keypress == 17,
            c@.sp == 0,
            c@.i == 0,
            c@.delay_timer == 0,
            c@.sound_timer == 0,
            forall|j: int| 0 <= j < 4096 ==> #[trigger] c@.memory[j] == 0,
            forall|j: int| 0 <= j < 16 ==> #[trigger] c@.v[j] == 0,
            forall|j: int| 0 <= j < 16 ==> #[trigger] c@.stack[j] == 0,
            forall|j: int| 0 <= j < 2048 ==> #[trigger] c@.gfx[j] == 0,
    {
        Chip8 { vm: Chip8_VM::new() }
    }

    /// Stores the name of the game and its program `rom` in memory from
    /// `PROGRAM_START` on, and the font from `FONT_START` on.
    pub fn load_game(&mut self, game: &str, rom: &[u8])
        requires
            old(self).wf(),
            rom@.len() <= MAX_ROM_SIZE,
        ensures
            final(self).wf(),
            final(self)@ == (VmState { memory: loaded_memory(old(self)@.memory, rom@), ..old(self)@ }),
            final(self).name_view() == game@,
            forall|p: int| 0 <= p < rom@.len() ==> #[trigger] final(self)@.memory[0x200 + p] == rom@[p],
            forall|q: int| 0 <= q < 80 ==> #[trigger] final(self)@.memory[0x50 + q] == font()[q],
            forall|j: int|
                0 <= j < 4096 && !(0x50 <= j < 0xA0) && !(0x200 <= j < 0x200 + rom@.len())
                    ==> #[trigger] final(self)@.memory[j] == old(self)@.memory[j],
            final(self)@.memory.len() == 4096,
    {
        let ghost s = self@;
        self.vm.name = game.to_owned();
        let mut pos: usize = 0;
        while pos < rom.len()
            invariant
                state_wf(s),
                rom@.len() <= MAX_ROM_SIZE,
                pos <= rom@.len(),
                self@ == (VmState { memory: self@.memory, ..s }),
                self.vm.name_view() == game@,
                self@.memory.len() == MEMORY_SIZE,
                forall|j: int|
                    0 <= j < MEMORY_SIZE ==> #[trigger] self@.memory[j] == if PROGRAM_START <= j
                        < PROGRAM_START + pos {
                        rom@[j - PROGRAM_START]
                    } else {
                        s.memory[j]
                    },
            decreases rom@.len() - pos,
        {
            // store the game in memory
            self.vm.memory.set(pos + 0x200, rom[pos]);
            pos += 1;
        }
        let fontset = fontset();
        pos = 0;
        while pos < 80
            invariant
                state_wf(s),
                rom@.len() <= MAX_ROM_SIZE,
                pos <= 80,
                fontset@ == font(),
                self@ == (VmState { memory: self@.memory, ..s }),
                self.vm.name_view() == game@,
                self@.memory.len() == MEMORY_SIZE,
                forall|j: int|
                    0 <= j < MEMORY_SIZE ==> #[trigger] self@.memory[j] == if PROGRAM_START <= j
                        < PROGRAM_START + rom@.len() {
                        rom@[j - PROGRAM_START]
                    } else if FONT_START <= j < FONT_START + pos {
                        font()[j - FONT_START]
                    } else {
                        s.memory[j]
                    },
            decreases 80 - pos,
        {
            self.vm.memory.set(pos + 0x50, fontset[pos]);
            pos += 1;
        }
        assert(self@.memory =~= loaded_memory(s.memory, rom@));
    }

    /// Whether `emulate_cycle` runs to its end from this state: the opcode
    /// lies in memory, and the instruction neither leaves the stack, memory
    /// or registers nor overflows.
    pub fn can_emulate_cycle(&self) -> (ok: bool)
        ensures
            ok == cycle_ok(self@),
    {
        if self.vm.memory.len() != 4096 || self.vm.v.len() != 16 || self.vm.stack.len() != 16
            || self.vm.gfx.len() != 2048 {
            return false;
        }
        if self.vm.pc >= 4095 {
            return false;
        }
        let hi: u8 = self.vm.memory[self.vm.pc];
        let lo: u8 = self.vm.memory[self.vm.pc + 1];
        proof {
            lemma_join_bytes(hi, lo);
        }
        let op: u16 = ((hi as u16) << 8) ^ lo as u16;
        proof {
            lemma_decode(op);
        }
        assert(op == decoded(self@).opcode);
        let group = op & 0xF000;
        let x: usize = ((0x0F00 & op) >> 8) as usize;
        let code = 0x00FF & op;
        let n = (0x000F & op) as usize;
        let sp = self.vm.sp;
        let i = self.vm.i;
        if group == 0x0000 && (0x0FFF & op) == 0x00EE {
            1 <= sp && sp < 16
        } else if group == 0x2000 {
            sp < 15
        } else if group == 0xD000 {
            n == 0 || (i <= 4096 && n <= 4096 - i)
        } else if group == 0xF000 {
            if code == 0x001E {
                i <= usize::MAX - self.vm.v[x] as usize
            } else if code == 0x0029 {
                self.vm.v[x] <= 35
            } else if code == 0x0033 {
                i < 4094
            } else if code == 0x0055 || code == 0x0065 {
                i < 4096 - x
            } else {
                true
            }
        } else {
            true
        }
    }

    /// Processes the opcode stored at the address the program counter
    /// points to, drawing a random byte for `CXNN`.
    pub fn emulate_cycle(&mut self) -> (effect: Effect)
        requires
            cycle_ok(old(self)@),
        ensures
            final(self).wf(),
            exists|r: u8| #[trigger] cycle(old(self)@, r) == (final(self)@, effect@),
            final(self).name_view() == old(self).name_view(),
    {
        let mut rng = thread_rng();
        let n: u16 = gen_range_byte(&mut rng);
        let effect = self.emulate_cycle_with_random(n as u8);
        assert(cycle(old(self)@, n as u8) == (self@, effect@));
        effect
    }

    /// Looks at the events that the input device reported and updates the
    /// key held; returns what `keycheck` returns, and on `Exit` changes nothing.
    pub fn detect_keypress(&mut self, events: &[KeyEvent]) -> (r: KeyCheck)
        requires
            old(self).wf(),
        ensures
            final(self).wf(),
            r == keycheck_result(events@, old(self)@.keypress),
            final(self)@ == (match r {
                KeyCheck::Exit => old(self)@,
                KeyCheck::Key(k) => VmState { keypress: k, ..old(self)@ },
            }),
            final(self).name_view() == old(self).name_view(),
    {
        let r = keycheck(events, self.vm.keypress);
        match r {
            KeyCheck::Exit => {},
            KeyCheck::Key(k) => {
                self.vm.keypress = k;
            },
        }
        r
    }

    /// Ends the wait of `FX0A`: stores the key held in register `x`.
    pub fn finish_key_wait(&mut self, x: usize)
        requires
            old(self).wf(),
            x < NUM_REGISTERS,
        ensures
            final(self).wf(),
            final(self)@ == set_reg(old(self)@, x as int, old(self)@.keypress),
            final(self).name_view() == old(self).name_view(),
    {
        let k = self.vm.keypress;
        self.vm.v.set(x, k);
    }

    /// The key held (0 to 15), or `NO_KEY`.
    pub fn keypress(&self) -> (k: u8)
        ensures
            k == self@.keypress,
    {
        self.vm.keypress
    }

    /// The screen, one byte per pixel, row after row.
    pub fn gfx(&self) -> (g: &[u8])
        ensures
            g@ == self@.gfx,
    {
        self.vm.gfx.as_slice()
    }

    /// The program counter.
    pub fn pc(&self) -> (pc: usize)
        ensures
            pc == self@.pc,
    {
        self.vm.pc
    }

    /// The index register I.
    pub fn index(&self) -> (i: usize)
        ensures
            i == self@.i,
    {
        self.vm.i
    }

    /// The stack pointer.
    pub fn sp(&self) -> (sp: usize)
        ensures
            sp == self@.sp,
    {
        self.vm.sp
    }

    /// The last opcode fetched.
    pub fn opcode(&self) -> (op: u16)
        ensures
            op == self@.opcode,
    {
        self.vm.opcode
    }

    /// The delay timer.
    pub fn delay_timer(&self) -> (t: u8)
        ensures
            t == self@.delay_timer,
    {
        self.vm.delay_timer
    }

    /// The sound timer.
    pub fn sound_timer(&self) -> (t: u8)
        ensures
            t == self@.sound_timer,
    {
        self.vm.sound_timer
    }

    /// Register V`x`.
    pub fn register(&self, x: usize) -> (val: u8)
        requires
            self.wf(),
            x < NUM_REGISTERS,
        ensures
            val == self@.v[x as int],
    {
        self.vm.v[x]
    }

    /// The byte of memory at `addr`.
    pub fn memory_at(&self, addr: usize) -> (val: u8)
        requires
            self.wf(),
            addr < MEMORY_SIZE,
        ensures
            val == self@.memory[addr as int],
    {
        self.vm.memory[addr]
    }

    /// Slot `j` of the call stack.
    pub fn stack_at(&self, j: usize) -> (val: u16)
        requires
            self.wf(),
            j < STACK_SIZE,
        ensures
            val == self@.stack[j as int],
    {
        self.vm.stack[j]
    }

    /// The name of the game loaded.
    pub fn name(&self) -> (name: &str)
        ensures
            name@ == self.name_view(),
    {
        self.vm.name.as_str()
    }

    /// One cycle with `random` as the random byte that `CXNN` uses: the
    /// timers count down, the opcode at the program counter is fetched, the
    /// program counter moves past it, and the instruction executes.
    pub fn emulate_cycle_with_random(&mut self, random: u8) -> (effect: Effect)
        requires
            cycle_ok(old(self)@),
        ensures
            final(self).wf(),
            final(self)@ == cycle(old(self)@, random).0,
            effect@ == cycle(old(self)@, random).1,
            final(self).name_view() == old(self).name_view(),
    {
        let ghost s = self@;
        if self.vm.delay_timer >= 1 {
            self.vm.delay_timer -= 1;
        }
        if self.vm.sound_timer > 1 {
            self.vm.sound_timer -= 1;
        } else if self.vm.sound_timer == 1 {
            self.vm.sound_timer -= 1;
        }
        let mut opcode: u16 = self.vm.memory[self.vm.pc] as u16;
        let lo: u8 = self.vm.memory[self.vm.pc + 1];
        proof {
            lemma_join_bytes(opcode as u8, lo);
        }
        opcode = (opcode << 8) ^ lo as u16;
        self.vm.opcode = opcode;
        self.vm.pc += 2;
        assert(self@ == decoded(s));
        proof {
            lemma_decode(opcode);
        }
        let x: usize = ((0x0F00 & opcode) >> 8) as usize;
        match opcode & 0xF000 {
            0x0000 => self.zero(),
            0x1000 => {
                // 1NNN: jump to NNN.
                self.vm.pc = (0x0FFF & opcode) as usize;
                Effect::Nothing
            },
            0x2000 => {
                // 2NNN: call the subroutine at NNN.
                self.vm.stack.set(self.vm.sp, self.vm.pc as u16);
                self.vm.sp += 1;
                self.vm.stack.set(self.vm.sp, 0x0FFF & opcode);
                self.vm.pc = (0x0FFF & opcode) as usize;
                Effect::Nothing
            },
            0x3000 => {
                // 3XNN: skip the next instruction if VX == NN.
                if self.vm.v[x] == (0x00FF & opcode) as u8 {
                    self.vm.pc += 2;
                }
                Effect::Nothing
            },
            0x4000 => {
                // 4XNN: skip the next instruction if VX != NN.
                if self.vm.v[x] != (0x00FF & opcode) as u8 {
                    self.vm.pc += 2;
                }
                Effect::Nothing
            },
            0x5000 => {
                // 5XY0: skip the next instruction if VX == VY.
                let y: usize = ((0x00F0 & opcode) >> 4) as usize;
                if self.vm.v[x] == self.vm.v[y] {
                    self.vm.pc += 2;
                }
                Effect::Nothing
            },
            0x6000 => {
                // 6XNN: set VX to NN.
                let n: u8 = (0x00FF & opcode) as u8;
                self.vm.v.set(x, n);
                Effect::Nothing
            },
            0x7000 => {
                // 7XNN: add NN to VX, without carry.
                let n: u16 = 0x00FF & opcode;
                let sum: u16 = n + self.vm.v[x] as u16;
                assert(sum & 0xFFu16 == sum % 256) by (bit_vector);
                let a: u8 = (sum & 0xFF) as u8;
                self.vm.v.set(x, a);
                Effect::Nothing
            },
            0x8000 => self.eight(),
            0x9000 => {
                // 9XY0: skip the next instruction if VX != VY.
                let y: usize = ((0x00F0 & opcode) >> 4) as usize;
                if self.vm.v[x] != self.vm.v[y] {
                    self.vm.pc += 2;
                }
                Effect::Nothing
            },
            0xA000 => {
                // ANNN: set I to NNN.
                self.vm.i = (0x0FFF & opcode) as usize;
                Effect::Nothing
            },
            0xB000 => {
                // BNNN: jump to NNN plus V0.
                self.vm.pc = (self.vm.v[0] as usize) + ((0x0FFF & opcode) as usize);
                Effect::Nothing
            },
            0xC000 => {
                // CXNN: set VX to a random byte masked with NN.
                self.vm.v.set(x, random & (0x00FF & opcode) as u8);
                Effect::Nothing
            },
            0xD000 => self.draw(),
            0xE000 => self.e(),
            _ => self.f(),
        }
    }

    /// Clears the screen.
    fn clear_screen(&mut self)
        requires
            old(self).wf(),
        ensures
            final(self)@ == (VmState { gfx: blank_screen(), ..old(self)@ }),
            final(self).name_view() == old(self).name_view(),
    {
        self.vm.gfx = vec![0u8; 2048];
        assert(self.vm.gfx@ =~= blank_screen());
    }

    /// Opcodes that begin with 0: clear the screen, return from a
    /// subroutine, or jump.
    fn zero(&mut self) -> (effect: Effect)
        requires
            old(self).wf(),
            instr_ok(old(self)@),
            op_group(old(self)@.opcode) == 0,
        ensures
            final(self)@ == exec_zero(old(self)@).0,
            effect@ == exec_zero(old(self)@).1,
            final(self).name_view() == old(self).name_view(),
    {
        let op = self.vm.opcode;
        proof {
            lemma_decode(op);
        }
        let code = 0x0FFF & op;
        match code {
            0x00E0 => {
                self.clear_screen();
                Effect::ScreenCleared
            },
            0x00EE => {
                // return from subroutine
                self.vm.stack.set(self.vm.sp, 0);
                self.vm.sp -= 1;
                self.vm.pc = self.vm.stack[self.vm.sp] as usize;
                Effect::Nothing
            },
            _ => {
                self.vm.pc = code as usize;
                Effect::Nothing
            },
        }
    }

    /// Opcodes that begin with E: skip on the key held.
    fn e(&mut self) -> (effect: Effect)
        requires
            old(self).wf(),
            old(self)@.pc <= MEMORY_SIZE + 1,
            op_group(old(self)@.opcode) == 14,
        ensures
            final(self)@ == exec_e(old(self)@).0,
            effect@ == exec_e(old(self)@).1,
            final(self).name_view() == old(self).name_view(),
    {
        let op = self.vm.opcode;
        proof {
            lemma_decode(op);
        }
        let code = 0x00FF & op;
        let x: usize = ((0x0F00 & op) << 8) as usize;
        match code {
            0x009E => {
                // EX9E: skips the next instruction if the key stored in VX is pressed.
                if self.vm.v[x] == self.vm.keypress {
                    self.vm.pc += 2;
                }
                Effect::Nothing
            },
            0x00A1 => {
                if self.vm.v[x] != self.vm.keypress {
                    self.vm.pc += 2;
                }
                Effect::Nothing
            },
            _ => Effect::UnknownE(op),
        }
    }

    /// Opcodes that begin with F: timers, keys, the index register and memory.
    fn f(&mut self) -> (effect: Effect)
        requires
            old(self).wf(),
            instr_ok(old(self)@),
            op_group(old(self)@.opcode) == 15,
        ensures
            final(self)@ == exec_f(old(self)@).0,
            effect@ == exec_f(old(self)@).1,
            final(self).name_view() == old(self).name_view(),
    {
        let ghost t = self@;
        let op = self.vm.opcode;
        proof {
            lemma_decode(op);
        }
        let code = 0x00FF & op;
        let x: usize = ((0x0F00 & op) >> 8) as usize;
        match code {
            0x0007 => {
                // FX07: sets VX to the value of the delay timer.
                self.vm.v.set(x, self.vm.delay_timer);
            },
            0x000A => {
                // FX0A: a key press is awaited, and then stored in VX.
                if self.vm.keypress == 17 {
                    return Effect::AwaitKey(x);
                }
                self.vm.v.set(x, self.vm.keypress);
            },
            0x0015 => {
                // FX15: sets the delay timer to VX.
                self.vm.delay_timer = self.vm.v[x];
            },
            0x0018 => {
                // FX18: sets the sound timer to VX.
                self.vm.sound_timer = self.vm.v[x];
            },
            0x001E => {
                // FX1E: adds VX to I; VF is not affected.
                self.vm.i += self.vm.v[x] as usize;
            },
            0x0029 => {
                // FX29: sets I to the location of the font sprite for the digit in VX.
                let sa = 0x50 + self.vm.v[x] * 5;
                self.vm.i = sa as usize;
            },
            0x0033 => {
                // FX33: stores the three decimal digits of VX at I, I + 1 and I + 2.
                let val = self.vm.v[x];
                let base = self.vm.i;
                self.vm.memory.set(base, val / 100);
                self.vm.memory.set(base + 1, (val / 10) % 10);
                self.vm.memory.set(base + 2, val % 10);
            },
            0x0055 => {
                // FX55: stores V0..=VX in memory from I on.
                let base = self.vm.i;
                for z in 0..(x + 1)
                    invariant
                        state_wf(t),
                        x < 16,
                        base == t.i,
                        base + x < MEMORY_SIZE,
                        self@ == (VmState { memory: self@.memory, ..t }),
                        self.vm.name_view() == old(self).vm.name_view(),
                        self@.memory.len() == MEMORY_SIZE,
                        forall|j: int|
                            0 <= j < MEMORY_SIZE ==> #[trigger] self@.memory[j] == if base <= j
                                < base + z {
                                t.v[j - base]
                            } else {
                                t.memory[j]
                            },
                {
                    let val = self.vm.v[z];
                    self.vm.memory.set(base + z, val);
                }
                assert(self@.memory =~= store_registers(t.memory, t.v, t.i as int, x as int));
            },
            0x0065 => {
                // FX65: loads V0..=VX from memory from I on.
                let base = self.vm.i;
                for z in 0..(x + 1)
                    invariant
                        state_wf(t),
                        x < 16,
                        base == t.i,
                        base + x < MEMORY_SIZE,
                        self@ == (VmState { v: self@.v, ..t }),
                        self.vm.name_view() == old(self).vm.name_view(),
                        self@.v.len() == NUM_REGISTERS,
                        forall|j: int|
                            0 <= j < NUM_REGISTERS ==> #[trigger] self@.v[j] == if j < z {
                                t.memory[base + j]
                            } else {
                                t.v[j]
                            },
                {
                    let val = self.vm.memory[base + z];
                    self.vm.v.set(z, val);
                }
                assert(self@.v =~= load_registers(t.memory, t.v, t.i as int, x as int));
            },
            _ => {
                return Effect::UnknownF(op);
            },
        }
        Effect::Nothing
    }

    /// `DXYN`: draws the `N`-row sprite stored at `I` with its corner at
    /// (VX, VY), flipping pixels, and sets VF to 1 if a lit pixel went dark.
    fn draw(&mut self) -> (effect: Effect)
        requires
            old(self).wf(),
            instr_ok(old(self)@),
            op_group(old(self)@.opcode) == 13,
        ensures
            final(self)@ == exec_draw(old(self)@).0,
            effect@ == exec_draw(old(self)@).1,
            final(self).name_view() == old(self).name_view(),
    {
        let ghost t = self@;
        let op = self.vm.opcode;
        proof {
            lemma_decode(op);
        }
        let x: usize = ((0x0F00 & op) >> 8) as usize;
        let y: usize = ((0x00F0 & op) >> 4) as usize;
        let vx = self.vm.v[x] as usize;
        let vy = self.vm.v[y] as usize;
        let n = (0x000F & op) as usize;
        let ghost mem = t.memory;
        let ghost i = t.i as int;
        self.vm.v.set(15, 0);
        let mut changed: Vec<usize> = Vec::new();
        proof {
            lemma_draw_start(t, vx as int, vy as int, n as int);
        }
        for r in 0..n
            invariant
                state_wf(t),
                self.vm.name_view() == old(self).vm.name_view(),
                t.i == self.vm.i,
                t.memory == self.vm.memory@,
                n == op_n(t.opcode),
                mem == t.memory,
                i == t.i as int,
                n == 0 || t.i + n <= MEMORY_SIZE,
                vx < 256,
                vy < 256,
                drawn_upto(self@, t, changed@, vx as int, vy as int, n as int, (r + vy) * 64 + vx),
        {
            let start: usize = (r + vy) * 64 + vx;
            let sprite: u8 = self.vm.memory[self.vm.i + r];
            for a in 0..8usize
                invariant
                    state_wf(t),
                    self.vm.name_view() == old(self).vm.name_view(),
                    t.i == self.vm.i,
                    t.memory == self.vm.memory@,
                    r < n,
                    n == 0 || t.i + n <= MEMORY_SIZE,
                    mem == t.memory,
                    i == t.i as int,
                    sprite == mem[i + r],
                    start == (r + vy) * 64 + vx,
                    vx < 256,
                    vy < 256,
                    drawn_upto(self@, t, changed@, vx as int, vy as int, n as int, start + a),
            {
                let k = start + a;
                proof {
                    lemma_row_offset(vx as int, vy as int, r as int, a as int);
                    lemma_pixel_bits(sprite, (7 - a) as u8, 0u8);
                }
                let ghost s0 = self@;
                if k < 2048 {
                    let bit: u8 = (sprite >> (7 - a as u8)) & 1;
                    let cell = self.vm.gfx[k];
                    proof {
                        lemma_pixel_bits(sprite, (7 - a) as u8, cell);
                    }
                    assert(sprite_pixel(mem, i, vx as int, vy as int, n as int, k as int)
                        <==> bit == 1u8);
                    let xo = bit ^ cell;
                    if xo != cell {
                        if xo == 0 {
                            self.vm.v.set(15, 1);
                        }
                        self.vm.gfx.set(k, xo);
                        changed.push(k);
                    }
                }
                proof {
                    let m = k;
                    let g0 = t.gfx;
                    let p = sprite_pixel(mem, i, vx as int, vy as int, n as int, m as int);
                    assert(drawn_below(mem, i, vx as int, vy as int, n as int, m + 1) == if p {
                        drawn_below(mem, i, vx as int, vy as int, n as int, m as int).push(m)
                    } else {
                        drawn_below(mem, i, vx as int, vy as int, n as int, m as int)
                    });
                    if p && g0[m as int] == 1u8 {
                        assert(collides_below(g0, mem, i, vx as int, vy as int, n as int, m + 1));
                    } else {
                        assert(collides_below(g0, mem, i, vx as int, vy as int, n as int, m + 1)
                            == collides_below(g0, mem, i, vx as int, vy as int, n as int, m as int));
                    }
                    assert(self@.gfx.len() == g0.len());
                    assert(self@ == VmState { v: self@.v, gfx: self@.gfx, ..t });
                    assert(self@.v == t.v.update(
                        15,
                        if collides_below(g0, mem, i, vx as int, vy as int, n as int, m + 1) {
                            1u8
                        } else {
                            0u8
                        },
                    ));
                    assert forall|k2: int| 0 <= k2 < self@.gfx.len() implies #[trigger] self@.gfx[k2]
                        == (if sprite_pixel(mem, i, vx as int, vy as int, n as int, k2) && k2 < m
                        + 1 {
                        g0[k2] ^ 1u8
                    } else {
                        g0[k2]
                    }) by {
                        if k2 != m {
                            assert(self@.gfx[k2] == s0.gfx[k2]);
                        }
                    }
                    assert(changed@ == drawn_below(mem, i, vx as int, vy as int, n as int, m + 1));
                }
            }
            proof {
                assert forall|k: int|
                    start + 8 <= k < start + 64 implies !#[trigger] sprite_pixel(
                    mem,
                    i,
                    vx as int,
                    vy as int,
                    n as int,
                    k,
                ) by {
                    lemma_row_gap(mem, i, vx as int, vy as int, n as int, r as int, k);
                }
                lemma_drawn_below_stable(
                    mem,
                    i,
                    vx as int,
                    vy as int,
                    n as int,
                    start + 8,
                    start + 64,
                );
                let g0 = t.gfx;
                assert forall|k: int|
                    start + 8 <= k < start + 64 implies !#[trigger] sprite_pixel(
                    mem,
                    i,
                    vx as int,
                    vy as int,
                    n as int,
                    k,
                ) by {
                    lemma_row_gap(mem, i, vx as int, vy as int, n as int, r as int, k);
                }
                assert forall|k: int| 0 <= k < self@.gfx.len() implies #[trigger] self@.gfx[k] == (
                if sprite_pixel(mem, i, vx as int, vy as int, n as int, k) && k < start + 64 {
                    g0[k] ^ 1u8
                } else {
                    g0[k]
                }) by {
                    if start + 8 <= k < start + 64 {
                        lemma_row_gap(mem, i, vx as int, vy as int, n as int, r as int, k);
                    }
                }
                assert(collides_below(g0, mem, i, vx as int, vy as int, n as int, start + 64)
                    == collides_below(g0, mem, i, vx as int, vy as int, n as int, start + 8));
            }
        }
        proof {
            lemma_draw_finish(self@, t, changed@, vx as int, vy as int, n as int);
        }
        Effect::SpriteDrawn(changed)
    }

    /// The `8XYN` arithmetic and logic instructions.
    fn eight(&mut self) -> (effect: Effect)
        requires
            old(self).wf(),
        ensures
            final(self)@ == exec_eight(old(self)@).0,
            effect@ == exec_eight(old(self)@).1,
            final(self).name_view() == old(self).name_view(),
    {
        let op = self.vm.opcode;
        proof {
            lemma_decode(op);
        }
        let code = 0x000F & op;
        let x: usize = ((0x0F00 & op) >> 8) as usize;
        let y: usize = ((0x00F0 & op) >> 4) as usize;
        let vx = self.vm.v[x];
        let vy = self.vm.v[y];
        match code {
            0x0000 => {
                self.vm.v.set(x, vy);
            },
            0x0001 => {
                self.vm.v.set(x, vy | vx);
            },
            0x0002 => {
                self.vm.v.set(x, vy & vx);
            },
            0x0003 => {
                self.vm.v.set(x, vy ^ vx);
            },
            0x0004 => {
                // VF is set to 1 when there is a carry, and to 0 when there is not.
                let result: u16 = vx as u16 + vy as u16;
                assert((result & 0xFFu16) == result % 256) by (bit_vector);
                if (result & 0xFF) < result {
                    self.vm.v.set(15, 1);
                } else {
                    self.vm.v.set(15, 0);
                }
                self.vm.v.set(x, (result & 0xFF) as u8);
            },
            0x0005 => {
                // VY is subtracted from VX; VF is 0 on a borrow and 1 otherwise.
                if vx < vy {
                    let sub = vx as i16 - vy as i16 + 256;
                    self.vm.v.set(x, sub as u8);
                    self.vm.v.set(15, 0);
                } else {
                    self.vm.v.set(x, vx - vy);
                    self.vm.v.set(15, 1);
                }
            },
            0x0006 => {
                assert(vx & 1u8 == vx % 2) by (bit_vector);
                self.vm.v.set(15, vx & 0x1);
                let cur = self.vm.v[x];
                assert(cur >> 1u8 == cur / 2) by (bit_vector);
                self.vm.v.set(x, cur >> 1);
            },
            0x0007 => {
                if vy < vx {
                    let sub = vy as i16 - vx as i16 + 256;
                    self.vm.v.set(x, sub as u8);
                    self.vm.v.set(15, 0);
                } else {
                    self.vm.v.set(x, vy - vx);
                    self.vm.v.set(15, 1);
                }
            },
            0x000E => {
                // The most significant bit of VX goes to VF, then VX shifts left by one.
                let most_sig = vx & 0b10000000;
                assert(vx & 0x80u8 == if vx >= 128 { 128u8 } else { 0u8 }) by (bit_vector);
                self.vm.v.set(15, most_sig);
                let cur = self.vm.v[x];
                assert(cur << 1u8 == ((cur * 2) % 256) as u8) by (bit_vector);
                self.vm.v.set(x, cur << 1);
            },
            _ => {
                return Effect::UnknownEight;
            },
        }
        Effect::Nothing
    }
}

} // verus!
