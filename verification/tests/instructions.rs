use chip8::{Chip8, Effect};

fn machine(rom: &[u8]) -> Chip8 {
    let mut c = Chip8::initialize();
    c.load_game("test", rom);
    c
}

fn step(c: &mut Chip8) -> Effect {
    assert!(c.can_emulate_cycle());
    c.emulate_cycle_with_random(0)
}

fn run(c: &mut Chip8, cycles: usize) {
    for _ in 0..cycles {
        step(c);
    }
}

#[test]
fn initialize_gives_blank_machine() {
    let c = Chip8::initialize();
    assert_eq!(c.pc(), 0x200);
    assert_eq!(c.index(), 0);
    assert_eq!(c.sp(), 0);
    assert_eq!(c.keypress(), 17);
    assert_eq!(c.delay_timer(), 0);
    assert_eq!(c.sound_timer(), 0);
    assert_eq!(c.name(), "");
    assert!(c.gfx().iter().all(|&p| p == 0));
    assert_eq!(c.gfx().len(), 2048);
    for x in 0..16 {
        assert_eq!(c.register(x), 0);
    }
}

#[test]
fn load_game_places_program_and_font() {
    let c = machine(&[0x12, 0x34, 0xAB]);
    assert_eq!(c.name(), "test");
    assert_eq!(c.memory_at(0x200), 0x12);
    assert_eq!(c.memory_at(0x201), 0x34);
    assert_eq!(c.memory_at(0x202), 0xAB);
    assert_eq!(c.memory_at(0x203), 0);
    assert_eq!(c.memory_at(0x50), 0xF0);
    assert_eq!(c.memory_at(0x55), 0x20);
    assert_eq!(c.memory_at(0x9F), 0x80);
    assert_eq!(c.memory_at(0xA0), 0);
    assert_eq!(c.memory_at(0x4F), 0);
}

#[test]
fn load_game_accepts_largest_rom() {
    let rom = vec![0x77u8; 3584];
    let c = machine(&rom);
    assert_eq!(c.memory_at(0x200), 0x77);
    assert_eq!(c.memory_at(4095), 0x77);
}

#[test]
fn set_and_add_register() {
    let mut c = machine(&[0x63, 0xF0, 0x73, 0x20, 0x73, 0x01]);
    step(&mut c);
    assert_eq!(c.register(3), 0xF0);
    step(&mut c);
    // 0xF0 + 0x20 wraps to 0x10 and VF is untouched
    assert_eq!(c.register(3), 0x10);
    assert_eq!(c.register(15), 0);
    step(&mut c);
    assert_eq!(c.register(3), 0x11);
    assert_eq!(c.pc(), 0x206);
    assert_eq!(c.opcode(), 0x7301);
}

#[test]
fn logic_instructions() {
    let mut c = machine(&[
        0x60, 0b1100, 0x61, 0b1010, 0x80, 0x11, // V0 |= V1
        0x60, 0b1100, 0x80, 0x12, // V0 &= V1
        0x60, 0b1100, 0x80, 0x13, // V0 ^= V1
        0x82, 0x10, // V2 = V1
    ]);
    run(&mut c, 3);
    assert_eq!(c.register(0), 0b1110);
    run(&mut c, 2);
    assert_eq!(c.register(0), 0b1000);
    run(&mut c, 2);
    assert_eq!(c.register(0), 0b0110);
    run(&mut c, 1);
    assert_eq!(c.register(2), 0b1010);
}

#[test]
fn add_sets_carry() {
    let mut c = machine(&[0x60, 200, 0x61, 100, 0x80, 0x14, 0x62, 1, 0x63, 2, 0x82, 0x34]);
    run(&mut c, 3);
    assert_eq!(c.register(0), 44);
    assert_eq!(c.register(15), 1);
    run(&mut c, 3);
    assert_eq!(c.register(2), 3);
    assert_eq!(c.register(15), 0);
}

#[test]
fn subtract_sets_borrow_flag() {
    let mut c = machine(&[0x60, 5, 0x61, 7, 0x80, 0x15, 0x62, 9, 0x63, 4, 0x82, 0x35]);
    run(&mut c, 3);
    assert_eq!(c.register(0), 254);
    assert_eq!(c.register(15), 0);
    run(&mut c, 3);
    assert_eq!(c.register(2), 5);
    assert_eq!(c.register(15), 1);
}

#[test]
fn reverse_subtract() {
    let mut c = machine(&[0x60, 7, 0x61, 5, 0x80, 0x17, 0x62, 4, 0x63, 9, 0x82, 0x37]);
    run(&mut c, 3);
    assert_eq!(c.register(0), 254);
    assert_eq!(c.register(15), 0);
    run(&mut c, 3);
    assert_eq!(c.register(2), 5);
    assert_eq!(c.register(15), 1);
}

#[test]
fn shifts_set_vf() {
    let mut c = machine(&[0x60, 0b1000_0011, 0x80, 0x06, 0x61, 0b1000_0001, 0x81, 0x0E]);
    run(&mut c, 2);
    assert_eq!(c.register(0), 0b0100_0001);
    assert_eq!(c.register(15), 1);
    run(&mut c, 2);
    assert_eq!(c.register(1), 0b0000_0010);
    // the most significant bit is stored as is, not as 1
    assert_eq!(c.register(15), 128);
}

#[test]
fn shift_into_vf_itself() {
    let mut c = machine(&[0x6F, 0b0000_0011, 0x8F, 0x06]);
    run(&mut c, 2);
    assert_eq!(c.register(15), 0);
}

#[test]
fn unknown_eight_is_reported() {
    let mut c = machine(&[0x80, 0x18]);
    assert_eq!(step(&mut c), Effect::UnknownEight);
    assert_eq!(c.pc(), 0x202);
}

#[test]
fn skips() {
    // 3XNN taken, 4XNN not taken, 5XY0 taken, 9XY0 not taken
    let mut c = machine(&[
        0x60, 0x05, 0x30, 0x05, 0x00, 0x00, 0x40, 0x05, 0x61, 0x05, 0x50, 0x10, 0x00, 0x00,
        0x90, 0x10,
    ]);
    step(&mut c);
    step(&mut c);
    assert_eq!(c.pc(), 0x206);
    step(&mut c);
    assert_eq!(c.pc(), 0x208);
    step(&mut c);
    step(&mut c);
    assert_eq!(c.pc(), 0x20E);
    step(&mut c);
    assert_eq!(c.pc(), 0x210);
}

#[test]
fn jumps() {
    let mut c = machine(&[0x13, 0x00]);
    step(&mut c);
    assert_eq!(c.pc(), 0x300);

    let mut c = machine(&[0x03, 0x45]);
    step(&mut c);
    assert_eq!(c.pc(), 0x345);

    let mut c = machine(&[0x60, 0x10, 0xB3, 0x00]);
    run(&mut c, 2);
    assert_eq!(c.pc(), 0x310);
}

#[test]
fn call_and_return() {
    let mut rom = vec![0u8; 0x102];
    rom[0] = 0x23; // call 0x300
    rom[1] = 0x00;
    rom[0x100] = 0x00; // at 0x300: return
    rom[0x101] = 0xEE;
    let mut c = machine(&rom);
    step(&mut c);
    assert_eq!(c.pc(), 0x300);
    assert_eq!(c.sp(), 1);
    assert_eq!(c.stack_at(0), 0x202);
    assert_eq!(c.stack_at(1), 0x300);
    step(&mut c);
    assert_eq!(c.pc(), 0x202);
    assert_eq!(c.sp(), 0);
    assert_eq!(c.stack_at(0), 0x202);
    assert_eq!(c.stack_at(1), 0);
}

#[test]
fn return_with_empty_stack_cannot_run() {
    let c = machine(&[0x00, 0xEE]);
    assert!(!c.can_emulate_cycle());
}

#[test]
fn too_deep_call_cannot_run() {
    // each call targets itself and takes one more slot; the sixteenth
    // would write past the stack
    let mut c = machine(&[0x22, 0x00]);
    for _ in 0..15 {
        step(&mut c);
    }
    assert_eq!(c.sp(), 15);
    assert_eq!(c.stack_at(15), 0x200);
    assert!(!c.can_emulate_cycle());
}

#[test]
fn index_instructions() {
    let mut c = machine(&[0xA1, 0x23, 0x60, 0x10, 0xF0, 0x1E, 0x61, 0x0A, 0xF1, 0x29]);
    step(&mut c);
    assert_eq!(c.index(), 0x123);
    run(&mut c, 2);
    assert_eq!(c.index(), 0x133);
    run(&mut c, 2);
    assert_eq!(c.index(), 0x50 + 50);
}

#[test]
fn font_address_overflow_cannot_run() {
    let mut c = machine(&[0x60, 36, 0xF0, 0x29]);
    step(&mut c);
    assert!(!c.can_emulate_cycle());
    let mut c = machine(&[0x60, 35, 0xF0, 0x29]);
    step(&mut c);
    assert!(c.can_emulate_cycle());
    step(&mut c);
    assert_eq!(c.index(), 0x50 + 175);
}

#[test]
fn bcd_digits() {
    let mut c = machine(&[0x60, 254, 0xA3, 0x00, 0xF0, 0x33]);
    run(&mut c, 3);
    assert_eq!(c.memory_at(0x300), 2);
    assert_eq!(c.memory_at(0x301), 5);
    assert_eq!(c.memory_at(0x302), 4);
}

#[test]
fn bcd_past_memory_cannot_run() {
    let mut c = machine(&[0xAF, 0xFE, 0xF0, 0x33]);
    step(&mut c);
    assert!(!c.can_emulate_cycle());
}

#[test]
fn store_and_load_registers() {
    let mut c = machine(&[
        0x60, 1, 0x61, 2, 0x62, 3, 0x63, 4, 0xA3, 0x00, 0xF2, 0x55, // store V0..V2
        0x60, 0, 0x61, 0, 0x62, 0, 0xF2, 0x65, // load V0..V2
    ]);
    run(&mut c, 6);
    assert_eq!(c.memory_at(0x300), 1);
    assert_eq!(c.memory_at(0x301), 2);
    assert_eq!(c.memory_at(0x302), 3);
    assert_eq!(c.memory_at(0x303), 0);
    run(&mut c, 3);
    assert_eq!(c.register(0), 0);
    run(&mut c, 1);
    assert_eq!(c.register(0), 1);
    assert_eq!(c.register(1), 2);
    assert_eq!(c.register(2), 3);
    assert_eq!(c.register(3), 4);
    assert_eq!(c.index(), 0x300);
}

#[test]
fn timers_count_down() {
    let mut c = machine(&[0x60, 3, 0xF0, 0x15, 0xF0, 0x18, 0xF1, 0x07, 0x00, 0xE0]);
    run(&mut c, 3);
    assert_eq!(c.delay_timer(), 2);
    assert_eq!(c.sound_timer(), 3);
    step(&mut c);
    assert_eq!(c.delay_timer(), 1);
    assert_eq!(c.sound_timer(), 2);
    assert_eq!(c.register(1), 1);
    step(&mut c);
    assert_eq!(c.delay_timer(), 0);
    assert_eq!(c.sound_timer(), 1);
}

#[test]
fn clear_screen() {
    let mut c = machine(&[0xA0, 0x50, 0xD0, 0x05, 0x00, 0xE0]);
    run(&mut c, 2);
    assert!(c.gfx().iter().any(|&p| p == 1));
    assert_eq!(step(&mut c), Effect::ScreenCleared);
    assert!(c.gfx().iter().all(|&p| p == 0));
}

#[test]
fn draw_font_zero() {
    // the sprite of "0" at (1, 2)
    let mut c = machine(&[0x60, 1, 0x61, 2, 0xA0, 0x50, 0xD0, 0x15]);
    run(&mut c, 3);
    let effect = step(&mut c);
    let row = |r: usize, a: usize| (r + 2) * 64 + 1 + a;
    let expected = vec![
        row(0, 0), row(0, 1), row(0, 2), row(0, 3),
        row(1, 0), row(1, 3),
        row(2, 0), row(2, 3),
        row(3, 0), row(3, 3),
        row(4, 0), row(4, 1), row(4, 2), row(4, 3),
    ];
    assert_eq!(effect, Effect::SpriteDrawn(expected.clone()));
    for k in 0..2048 {
        assert_eq!(c.gfx()[k], if expected.contains(&k) { 1 } else { 0 });
    }
    assert_eq!(c.register(15), 0);
}

#[test]
fn draw_twice_collides_and_restores() {
    let mut c = machine(&[0x60, 10, 0x61, 3, 0xA0, 0x55, 0xD0, 0x15, 0xD0, 0x15]);
    run(&mut c, 4);
    assert_eq!(c.register(15), 0);
    step(&mut c);
    assert_eq!(c.register(15), 1);
    assert!(c.gfx().iter().all(|&p| p == 0));
}

#[test]
fn draw_wraps_to_next_row_and_clips_bottom() {
    // "0" at column 62 of the last row: its row spills into the row below,
    // which does not exist, so only the first two pixels show
    let mut c = machine(&[0x60, 62, 0x61, 31, 0xA0, 0x50, 0xD0, 0x15]);
    run(&mut c, 3);
    let effect = step(&mut c);
    assert_eq!(effect, Effect::SpriteDrawn(vec![31 * 64 + 62, 31 * 64 + 63]));
}

#[test]
fn draw_zero_rows() {
    let mut c = machine(&[0xA0, 0x50, 0xD0, 0x00]);
    run(&mut c, 1);
    assert_eq!(step(&mut c), Effect::SpriteDrawn(vec![]));
}

#[test]
fn draw_past_memory_cannot_run() {
    let mut c = machine(&[0xAF, 0xFD, 0xD0, 0x04]);
    step(&mut c);
    assert!(!c.can_emulate_cycle());
    let mut c = machine(&[0xAF, 0xFD, 0xD0, 0x03]);
    step(&mut c);
    assert!(c.can_emulate_cycle());
}

#[test]
fn random_byte_is_masked() {
    let mut c = machine(&[0xC4, 0x0F, 0xC5, 0xF0]);
    c.emulate_cycle_with_random(0xAB);
    assert_eq!(c.register(4), 0x0B);
    c.emulate_cycle_with_random(0xAB);
    assert_eq!(c.register(5), 0xA0);
    let mut c = machine(&[0xC4, 0x0F, 0xC4, 0x0F, 0xC4, 0x0F]);
    for _ in 0..3 {
        assert!(c.can_emulate_cycle());
        c.emulate_cycle();
        assert!(c.register(4) <= 0x0F);
    }
}

#[test]
fn wait_for_key() {
    let mut c = machine(&[0xF3, 0x0A]);
    assert_eq!(step(&mut c), Effect::AwaitKey(3));
    assert_eq!(c.register(3), 0);
    c.detect_keypress(&[chip8::KeyEvent::KeyDown(chip8::Keycode::W)]);
    c.finish_key_wait(3);
    assert_eq!(c.register(3), 8);
}

#[test]
fn key_already_held_is_stored() {
    let mut c = machine(&[0xF3, 0x0A]);
    c.detect_keypress(&[chip8::KeyEvent::KeyDown(chip8::Keycode::N)]);
    assert_eq!(step(&mut c), Effect::Nothing);
    assert_eq!(c.register(3), 15);
}

#[test]
fn key_skips_compare_register_zero() {
    // EX9E compares V0, whatever X is
    let mut c = machine(&[0x60, 1, 0x65, 7, 0xE5, 0x9E]);
    c.detect_keypress(&[chip8::KeyEvent::KeyDown(chip8::Keycode::A)]);
    run(&mut c, 3);
    assert_eq!(c.pc(), 0x208);
    let mut c = machine(&[0x60, 1, 0x65, 1, 0xE5, 0xA1]);
    c.detect_keypress(&[chip8::KeyEvent::KeyDown(chip8::Keycode::S)]);
    run(&mut c, 3);
    assert_eq!(c.pc(), 0x208);
}

#[test]
fn unknown_e_and_f_are_reported() {
    let mut c = machine(&[0xE1, 0x23, 0xF1, 0x99]);
    assert_eq!(step(&mut c), Effect::UnknownE(0xE123));
    assert_eq!(step(&mut c), Effect::UnknownF(0xF199));
    assert_eq!(c.pc(), 0x204);
}

#[test]
fn program_counter_at_end_of_memory_cannot_run() {
    let mut c = machine(&[0x1F, 0xFF]);
    step(&mut c);
    assert_eq!(c.pc(), 0xFFF);
    assert!(!c.can_emulate_cycle());
    let mut c = machine(&[0x1F, 0xFE]);
    step(&mut c);
    assert!(c.can_emulate_cycle());
}

#[test]
fn random_byte_only_matters_for_cxnn() {
    let rom = [0x60, 0x12, 0x70, 0x34, 0xA2, 0x22, 0x80, 0x04];
    let mut a = machine(&rom);
    let mut b = machine(&rom);
    for r in 0..4u8 {
        a.emulate_cycle_with_random(r);
        b.emulate_cycle_with_random(255 - r);
    }
    assert_eq!(a.register(0), b.register(0));
    assert_eq!(a.register(15), b.register(15));
    assert_eq!(a.index(), b.index());
    assert_eq!(a.pc(), b.pc());
}

#[test]
fn cycles_keep_array_sizes() {
    let mut c = machine(&[0x00, 0xE0, 0xA0, 0x50, 0xD0, 0x05]);
    run(&mut c, 3);
    assert_eq!(c.gfx().len(), 2048);
    assert_eq!(c.register(15), 0);
}
