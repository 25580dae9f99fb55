//! The keyboard: which key, if any, the machine sees as held, from the
//! events that the keyboard device reported since the last look.

use vstd::prelude::*;
use crate::model::NO_KEY;

verus! {

/// The keys of the host keyboard that the machine tells apart.
#[derive(Clone, Copy, Debug, PartialEq, Eq, Structural)]
pub enum Keycode {
    Escape,
    Space,
    A,
    S,
    X,
    Z,
    C,
    U,
    D,
    W,
    E,
    R,
    F,
    K,
    M,
    H,
    N,
    /// Any other key, or a key press without a key code.
    Other,
}

/// An event of the host's input device.
#[derive(Clone, Copy, Debug, PartialEq, Eq, Structural)]
pub enum KeyEvent {
    /// The window was asked to close.
    Quit,
    /// A key went down.
    KeyDown(Keycode),
    /// A key went up.
    KeyUp,
    /// Any other event.
    Other,
}

/// The outcome of looking at the keyboard.
#[derive(Clone, Copy, Debug, PartialEq, Eq, Structural)]
pub enum KeyCheck {
    /// The user asked to leave: the program ends.
    Exit,
    /// The key now held (0 to 15), or `NO_KEY`.
    Key(u8),
}

/// The machine key (0 to 15) that a host key stands for.
pub open spec fn key_value(code: Keycode) -> Option<u8> {
    match code {
        Keycode::Space => Some(0u8),
        Keycode::A => Some(1u8),
        Keycode::S => Some(2u8),
        Keycode::X => Some(3u8),
        Keycode::Z => Some(4u8),
        Keycode::C => Some(5u8),
        Keycode::U => Some(6u8),
        Keycode::D => Some(7u8),
        Keycode::W => Some(8u8),
        Keycode::E => Some(9u8),
        Keycode::R => Some(10u8),
        Keycode::F => Some(11u8),
        Keycode::K => Some(12u8),
        Keycode::M => Some(13u8),
        Keycode::H => Some(14u8),
        Keycode::N => Some(15u8),
        _ => None,
    }
}

/// Closing the window or pressing Escape ends the program.
pub open spec fn is_exit(e: KeyEvent) -> bool {
    e == KeyEvent::Quit || e == KeyEvent::KeyDown(Keycode::Escape)
}

/// The key seen after one event: a mapped key going down is seen, any key
/// going up releases it, and other events change nothing.
pub open spec fn key_step(out: u8, e: KeyEvent) -> u8 {
    match e {
        KeyEvent::KeyDown(code) => match key_value(code) {
            Some(k) => k,
            None => out,
        },
        KeyEvent::KeyUp => NO_KEY,
        _ => out,
    }
}

/// The key seen after the events, one after the other, starting from `out`.
pub open spec fn scan_keys(events: Seq<KeyEvent>, out: u8) -> u8
    decreases events.len(),
{
    if events.len() == 0 {
        out
    } else {
        key_step(scan_keys(events.drop_last(), out), events.last())
    }
}

/// What looking at the keyboard gives: the program ends on a request to
/// leave; otherwise the key seen after the events, except that a key that
/// was held and is no longer the same one reads as released.
pub open spec fn keycheck_result(events: Seq<KeyEvent>, keypress: u8) -> KeyCheck {
    if exists|j: int| 0 <= j < events.len() && #[trigger] is_exit(events[j]) {
        KeyCheck::Exit
    } else {
        let out = scan_keys(events, keypress);
        if out != keypress && keypress != NO_KEY {
            KeyCheck::Key(NO_KEY)
        } else {
            KeyCheck::Key(out)
        }
    }
}

/// Looks at the events reported since the last look and returns the key
/// now held, given `keypress`, the key held before; or `Exit` when the
/// window is closed or Escape is pressed.
pub fn keycheck(events: &[KeyEvent], keypress: u8) -> (r: KeyCheck)
    ensures
        r == keycheck_result(events@, keypress),
{
    let mut out = keypress;
    let mut idx: usize = 0;
    while idx < events.len()
        invariant
            idx <= events@.len(),
            out == scan_keys(events@.take(idx as int), keypress),
            forall|j: int| 0 <= j < idx ==> !#[trigger] is_exit(events@[j]),
        decreases events@.len() - idx,
    {
        let event = events[idx];
        assert(events@.take(idx + 1).drop_last() =~= events@.take(idx as int));
        let key: u8 = match event {
            KeyEvent::Quit | KeyEvent::KeyDown(Keycode::Escape) => {
                assert(is_exit(events@[idx as int]));
                return KeyCheck::Exit;
            },
            KeyEvent::KeyDown(Keycode::Space) => 0,
            KeyEvent::KeyDown(Keycode::A) => 1,
            KeyEvent::KeyDown(Keycode::S) => 2,
            KeyEvent::KeyDown(Keycode::X) => 3,
            KeyEvent::KeyDown(Keycode::Z) => 4,
            KeyEvent::KeyDown(Keycode::C) => 5,
            KeyEvent::KeyDown(Keycode::U) => 6,
            KeyEvent::KeyDown(Keycode::D) => 7,
            KeyEvent::KeyDown(Keycode::W) => 8,
            KeyEvent::KeyDown(Keycode::E) => 9,
            KeyEvent::KeyDown(Keycode::R) => 10,
            KeyEvent::KeyDown(Keycode::F) => 11,
            KeyEvent::KeyDown(Keycode::K) => 12,
            KeyEvent::KeyDown(Keycode::M) => 13,
            KeyEvent::KeyDown(Keycode::H) => 14,
            KeyEvent::KeyDown(Keycode::N) => 15,
            KeyEvent::KeyUp => {
                out = 17;
                17
            },
            _ => 17,
        };
        if key != 17 {
            out = key;
        }
        idx += 1;
    }
    assert(events@.take(events@.len() as int) =~= events@);
    if out != keypress && keypress != 17 {
        out = 17;
    }
    KeyCheck::Key(out)
}

} // verus!
