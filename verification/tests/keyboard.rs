use chip8::{keycheck, Chip8, KeyCheck, KeyEvent, Keycode};

#[test]
fn no_events_keeps_key() {
    assert_eq!(keycheck(&[], 17), KeyCheck::Key(17));
    assert_eq!(keycheck(&[], 5), KeyCheck::Key(5));
}

#[test]
fn key_down_is_seen() {
    assert_eq!(keycheck(&[KeyEvent::KeyDown(Keycode::Space)], 17), KeyCheck::Key(0));
    assert_eq!(keycheck(&[KeyEvent::KeyDown(Keycode::M)], 17), KeyCheck::Key(13));
    assert_eq!(keycheck(&[KeyEvent::KeyDown(Keycode::H)], 17), KeyCheck::Key(14));
}

#[test]
fn every_mapped_key() {
    let keys = [
        Keycode::Space, Keycode::A, Keycode::S, Keycode::X, Keycode::Z, Keycode::C,
        Keycode::U, Keycode::D, Keycode::W, Keycode::E, Keycode::R, Keycode::F,
        Keycode::K, Keycode::M, Keycode::H, Keycode::N,
    ];
    for (value, key) in keys.iter().enumerate() {
        assert_eq!(keycheck(&[KeyEvent::KeyDown(*key)], 17), KeyCheck::Key(value as u8));
    }
}

#[test]
fn unmapped_key_changes_nothing() {
    assert_eq!(keycheck(&[KeyEvent::KeyDown(Keycode::Other)], 17), KeyCheck::Key(17));
    assert_eq!(keycheck(&[KeyEvent::Other], 4), KeyCheck::Key(4));
}

#[test]
fn key_up_releases() {
    assert_eq!(keycheck(&[KeyEvent::KeyUp], 3), KeyCheck::Key(17));
    assert_eq!(
        keycheck(&[KeyEvent::KeyDown(Keycode::A), KeyEvent::KeyUp], 17),
        KeyCheck::Key(17)
    );
}

#[test]
fn last_key_wins() {
    assert_eq!(
        keycheck(&[KeyEvent::KeyDown(Keycode::A), KeyEvent::KeyDown(Keycode::S)], 17),
        KeyCheck::Key(2)
    );
}

#[test]
fn changing_held_key_releases_first() {
    assert_eq!(keycheck(&[KeyEvent::KeyDown(Keycode::S)], 1), KeyCheck::Key(17));
    assert_eq!(keycheck(&[KeyEvent::KeyDown(Keycode::A)], 1), KeyCheck::Key(1));
}

#[test]
fn quit_and_escape_exit() {
    assert_eq!(keycheck(&[KeyEvent::Quit], 17), KeyCheck::Exit);
    assert_eq!(
        keycheck(&[KeyEvent::KeyDown(Keycode::A), KeyEvent::KeyDown(Keycode::Escape)], 17),
        KeyCheck::Exit
    );
    assert_eq!(
        keycheck(&[KeyEvent::Quit, KeyEvent::KeyDown(Keycode::A)], 17),
        KeyCheck::Exit
    );
}

#[test]
fn detect_keypress_updates_machine() {
    let mut c = Chip8::initialize();
    assert_eq!(c.detect_keypress(&[KeyEvent::KeyDown(Keycode::Z)]), KeyCheck::Key(4));
    assert_eq!(c.keypress(), 4);
    assert_eq!(c.detect_keypress(&[KeyEvent::Quit]), KeyCheck::Exit);
    assert_eq!(c.keypress(), 4);
    assert_eq!(c.detect_keypress(&[KeyEvent::KeyUp]), KeyCheck::Key(17));
    assert_eq!(c.keypress(), 17);
}
