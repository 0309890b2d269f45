use vstd::prelude::*;

verus! {

/// The number of key symbols the runtime tracks.
pub const KEY_COUNT: usize = 52;

/// A key symbol, identified by the windowing collaborator's native keycode.
/// Raw keycodes outside this closed set decode to `None` and are ignored by
/// the event bridge.
#[derive(Clone, Copy, Debug, PartialEq, Eq, Structural)]
pub enum Key {
    A,
    B,
    C,
    D,
    E,
    F,
    G,
    H,
    I,
    J,
    K,
    L,
    M,
    N,
    O,
    P,
    Q,
    R,
    S,
    T,
    U,
    V,
    W,
    X,
    Y,
    Z,
    Num0,
    Num1,
    Num2,
    Num3,
    Num4,
    Num5,
    Num6,
    Num7,
    Num8,
    Num9,
    Return,
    Escape,
    Backspace,
    Tab,
    Space,
    Delete,
    Up,
    Down,
    Left,
    Right,
    LCtrl,
    LShift,
    LAlt,
    RCtrl,
    RShift,
    RAlt,
}

/// A semantic input event, produced transiently from one raw external event.
#[derive(Clone, Copy, Debug, PartialEq, Eq, Structural)]
pub enum Event {
    KeyPress(Key),
    KeyRelease(Key),
    MouseMove(i32, i32),
}

/// A raw event as reported by the windowing collaborator, reduced to the
/// categories the runtime reacts to. `Other` stands for every category the
/// bridge ignores.
#[derive(Clone, Copy, Debug, PartialEq, Eq, Structural)]
pub enum RawEvent {
    KeyDown(i32),
    KeyUp(i32),
    MouseMotion(i32, i32),
    Quit,
    Other,
}

/// The collaborator's native keycode of a key symbol.
pub open spec fn spec_key_code(k: Key) -> int {
    match k {
            Key::A => 97,
            Key::B => 98,
            Key::C => 99,
            Key::D => 100,
            Key::E => 101,
            Key::F => 102,
            Key::G => 103,
            Key::H => 104,
            Key::I => 105,
            Key::J => 106,
            Key::K => 107,
            Key::L => 108,
            Key::M => 109,
            Key::N => 110,
            Key::O => 111,
            Key::P => 112,
            Key::Q => 113,
            Key::R => 114,
            Key::S => 115,
            Key::T => 116,
            Key::U => 117,
            Key::V => 118,
            Key::W => 119,
            Key::X => 120,
            Key::Y => 121,
            Key::Z => 122,
            Key::Num0 => 48,
            Key::Num1 => 49,
            Key::Num2 => 50,
            Key::Num3 => 51,
            Key::Num4 => 52,
            Key::Num5 => 53,
            Key::Num6 => 54,
            Key::Num7 => 55,
            Key::Num8 => 56,
            Key::Num9 => 57,
            Key::Return => 13,
            Key::Escape => 27,
            Key::Backspace => 8,
            Key::Tab => 9,
            Key::Space => 32,
            Key::Delete => 127,
            Key::Up => 1073741906,
            Key::Down => 1073741905,
            Key::Left => 1073741904,
            Key::Right => 1073741903,
            Key::LCtrl => 1073742048,
            Key::LShift => 1073742049,
            Key::LAlt => 1073742050,
            Key::RCtrl => 1073742052,
            Key::RShift => 1073742053,
            Key::RAlt => 1073742054,
    }
}

/// The dense table index of a key symbol: a bijection onto `0 .. KEY_COUNT`.
pub open spec fn spec_key_index(k: Key) -> int {
    match k {
            Key::A => 0,
            Key::B => 1,
            Key::C => 2,
            Key::D => 3,
            Key::E => 4,
            Key::F => 5,
            Key::G => 6,
            Key::H => 7,
            Key::I => 8,
            Key::J => 9,
            Key::K => 10,
            Key::L => 11,
            Key::M => 12,
            Key::N => 13,
            Key::O => 14,
            Key::P => 15,
            Key::Q => 16,
            Key::R => 17,
            Key::S => 18,
            Key::T => 19,
            Key::U => 20,
            Key::V => 21,
            Key::W => 22,
            Key::X => 23,
            Key::Y => 24,
            Key::Z => 25,
            Key::Num0 => 26,
            Key::Num1 => 27,
            Key::Num2 => 28,
            Key::Num3 => 29,
            Key::Num4 => 30,
            Key::Num5 => 31,
            Key::Num6 => 32,
            Key::Num7 => 33,
            Key::Num8 => 34,
            Key::Num9 => 35,
            Key::Return => 36,
            Key::Escape => 37,
            Key::Backspace => 38,
            Key::Tab => 39,
            Key::Space => 40,
            Key::Delete => 41,
            Key::Up => 42,
            Key::Down => 43,
            Key::Left => 44,
            Key::Right => 45,
            Key::LCtrl => 46,
            Key::LShift => 47,
            Key::LAlt => 48,
            Key::RCtrl => 49,
            Key::RShift => 50,
            Key::RAlt => 51,
    }
}

pub fn key_code(k: Key) -> (c: i32)
    ensures
        c == spec_key_code(k),
{
    match k {
        Key::A => 97,
        Key::B => 98,
        Key::C => 99,
        Key::D => 100,
        Key::E => 101,
        Key::F => 102,
        Key::G => 103,
        Key::H => 104,
        Key::I => 105,
        Key::J => 106,
        Key::K => 107,
        Key::L => 108,
        Key::M => 109,
        Key::N => 110,
        Key::O => 111,
        Key::P => 112,
        Key::Q => 113,
        Key::R => 114,
        Key::S => 115,
        Key::T => 116,
        Key::U => 117,
        Key::V => 118,
        Key::W => 119,
        Key::X => 120,
        Key::Y => 121,
        Key::Z => 122,
        Key::Num0 => 48,
        Key::Num1 => 49,
        Key::Num2 => 50,
        Key::Num3 => 51,
        Key::Num4 => 52,
        Key::Num5 => 53,
        Key::Num6 => 54,
        Key::Num7 => 55,
        Key::Num8 => 56,
        Key::Num9 => 57,
        Key::Return => 13,
        Key::Escape => 27,
        Key::Backspace => 8,
        Key::Tab => 9,
        Key::Space => 32,
        Key::Delete => 127,
        Key::Up => 1073741906,
        Key::Down => 1073741905,
        Key::Left => 1073741904,
        Key::Right => 1073741903,
        Key::LCtrl => 1073742048,
        Key::LShift => 1073742049,
        Key::LAlt => 1073742050,
        Key::RCtrl => 1073742052,
        Key::RShift => 1073742053,
        Key::RAlt => 1073742054,
    }
}

pub fn key_index(k: Key) -> (i: usize)
    ensures
        i == spec_key_index(k),
        i < KEY_COUNT,
{
    match k {
        Key::A => 0,
        Key::B => 1,
        Key::C => 2,
        Key::D => 3,
        Key::E => 4,
        Key::F => 5,
        Key::G => 6,
        Key::H => 7,
        Key::I => 8,
        Key::J => 9,
        Key::K => 10,
        Key::L => 11,
        Key::M => 12,
        Key::N => 13,
        Key::O => 14,
        Key::P => 15,
        Key::Q => 16,
        Key::R => 17,
        Key::S => 18,
        Key::T => 19,
        Key::U => 20,
        Key::V => 21,
        Key::W => 22,
        Key::X => 23,
        Key::Y => 24,
        Key::Z => 25,
        Key::Num0 => 26,
        Key::Num1 => 27,
        Key::Num2 => 28,
        Key::Num3 => 29,
        Key::Num4 => 30,
        Key::Num5 => 31,
        Key::Num6 => 32,
        Key::Num7 => 33,
        Key::Num8 => 34,
        Key::Num9 => 35,
        Key::Return => 36,
        Key::Escape => 37,
        Key::Backspace => 38,
        Key::Tab => 39,
        Key::Space => 40,
        Key::Delete => 41,
        Key::Up => 42,
        Key::Down => 43,
        Key::Left => 44,
        Key::Right => 45,
        Key::LCtrl => 46,
        Key::LShift => 47,
        Key::LAlt => 48,
        Key::RCtrl => 49,
        Key::RShift => 50,
        Key::RAlt => 51,
    }
}

/// The key symbol a raw keycode decodes to, if any.
pub open spec fn spec_key_from_code(code: int) -> Option<Key> {
    if code == 97 {
        Some(Key::A)
    } else if code == 98 {
        Some(Key::B)
    } else if code == 99 {
        Some(Key::C)
    } else if code == 100 {
        Some(Key::D)
    } else if code == 101 {
        Some(Key::E)
    } else if code == 102 {
        Some(Key::F)
    } else if code == 103 {
        Some(Key::G)
    } else if code == 104 {
        Some(Key::H)
    } else if code == 105 {
        Some(Key::I)
    } else if code == 106 {
        Some(Key::J)
    } else if code == 107 {
        Some(Key::K)
    } else if code == 108 {
        Some(Key::L)
    } else if code == 109 {
        Some(Key::M)
    } else if code == 110 {
        Some(Key::N)
    } else if code == 111 {
        Some(Key::O)
    } else if code == 112 {
        Some(Key::P)
    } else if code == 113 {
        Some(Key::Q)
    } else if code == 114 {
        Some(Key::R)
    } else if code == 115 {
        Some(Key::S)
    } else if code == 116 {
        Some(Key::T)
    } else if code == 117 {
        Some(Key::U)
    } else if code == 118 {
        Some(Key::V)
    } else if code == 119 {
        Some(Key::W)
    } else if code == 120 {
        Some(Key::X)
    } else if code == 121 {
        Some(Key::Y)
    } else if code == 122 {
        Some(Key::Z)
    } else if code == 48 {
        Some(Key::Num0)
    } else if code == 49 {
        Some(Key::Num1)
    } else if code == 50 {
        Some(Key::Num2)
    } else if code == 51 {
        Some(Key::Num3)
    } else if code == 52 {
        Some(Key::Num4)
    } else if code == 53 {
        Some(Key::Num5)
    } else if code == 54 {
        Some(Key::Num6)
    } else if code == 55 {
        Some(Key::Num7)
    } else if code == 56 {
        Some(Key::Num8)
    } else if code == 57 {
        Some(Key::Num9)
    } else if code == 13 {
        Some(Key::Return)
    } else if code == 27 {
        Some(Key::Escape)
    } else if code == 8 {
        Some(Key::Backspace)
    } else if code == 9 {
        Some(Key::Tab)
    } else if code == 32 {
        Some(Key::Space)
    } else if code == 127 {
        Some(Key::Delete)
    } else if code == 1073741906 {
        Some(Key::Up)
    } else if code == 1073741905 {
        Some(Key::Down)
    } else if code == 1073741904 {
        Some(Key::Left)
    } else if code == 1073741903 {
        Some(Key::Right)
    } else if code == 1073742048 {
        Some(Key::LCtrl)
    } else if code == 1073742049 {
        Some(Key::LShift)
    } else if code == 1073742050 {
        Some(Key::LAlt)
    } else if code == 1073742052 {
        Some(Key::RCtrl)
    } else if code == 1073742053 {
        Some(Key::RShift)
    } else if code == 1073742054 {
        Some(Key::RAlt)
    } else {
        None
    }
}

pub fn key_from_code(code: i32) -> (k: Option<Key>)
    ensures
        k == spec_key_from_code(code as int),
{
    match code {
        97 => Some(Key::A),
        98 => Some(Key::B),
        99 => Some(Key::C),
        100 => Some(Key::D),
        101 => Some(Key::E),
        102 => Some(Key::F),
        103 => Some(Key::G),
        104 => Some(Key::H),
        105 => Some(Key::I),
        106 => Some(Key::J),
        107 => Some(Key::K),
        108 => Some(Key::L),
        109 => Some(Key::M),
        110 => Some(Key::N),
        111 => Some(Key::O),
        112 => Some(Key::P),
        113 => Some(Key::Q),
        114 => Some(Key::R),
        115 => Some(Key::S),
        116 => Some(Key::T),
        117 => Some(Key::U),
        118 => Some(Key::V),
        119 => Some(Key::W),
        120 => Some(Key::X),
        121 => Some(Key::Y),
        122 => Some(Key::Z),
        48 => Some(Key::Num0),
        49 => Some(Key::Num1),
        50 => Some(Key::Num2),
        51 => Some(Key::Num3),
        52 => Some(Key::Num4),
        53 => Some(Key::Num5),
        54 => Some(Key::Num6),
        55 => Some(Key::Num7),
        56 => Some(Key::Num8),
        57 => Some(Key::Num9),
        13 => Some(Key::Return),
        27 => Some(Key::Escape),
        8 => Some(Key::Backspace),
        9 => Some(Key::Tab),
        32 => Some(Key::Space),
        127 => Some(Key::Delete),
        1073741906 => Some(Key::Up),
        1073741905 => Some(Key::Down),
        1073741904 => Some(Key::Left),
        1073741903 => Some(Key::Right),
        1073742048 => Some(Key::LCtrl),
        1073742049 => Some(Key::LShift),
        1073742050 => Some(Key::LAlt),
        1073742052 => Some(Key::RCtrl),
        1073742053 => Some(Key::RShift),
        1073742054 => Some(Key::RAlt),
        _ => None,
    }
}

/// The table index is in range.
pub proof fn lemma_key_index_bounds(k: Key)
    ensures
        0 <= spec_key_index(k) < KEY_COUNT,
{
}

/// Distinct key symbols occupy distinct table slots.
pub proof fn lemma_key_index_injective(k1: Key, k2: Key)
    ensures
        k1 != k2 ==> spec_key_index(k1) != spec_key_index(k2),
{
}

/// Decoding a key symbol's own keycode yields that symbol back.
pub proof fn lemma_key_code_roundtrip(k: Key)
    ensures
        spec_key_from_code(spec_key_code(k)) == Some(k),
{
}

/// The live key-pressed table: one boolean per tracked key symbol, default
/// not-pressed. Written only by the event bridge; read by callbacks and by
/// the pause sub-loop.
pub struct KeyState {
    pub pressed: Vec<bool>,
}

impl KeyState {
    pub open spec fn wf(&self) -> bool {
        self.pressed@.len() == KEY_COUNT
    }

    pub open spec fn is_pressed(&self, k: Key) -> bool {
        self.pressed@[spec_key_index(k)]
    }

    /// A fresh table: no key pressed.
    pub fn new() -> (t: KeyState)
        ensures
            t.wf(),
            forall|k: Key| !t.is_pressed(k),
    {
        let t = KeyState { pressed: vec![false; KEY_COUNT] };
        proof {
            assert forall|k: Key| !t.is_pressed(k) by {
                lemma_key_index_bounds(k);
            }
        }
        t
    }

    /// Asserts or clears one key, leaving every other key unchanged.
    /// Re-asserting a key that is already down is idempotent.
    pub fn set_pressed(&mut self, k: Key, down: bool)
        requires
            old(self).wf(),
        ensures
            final(self).wf(),
            final(self).is_pressed(k) == down,
            forall|k2: Key| k2 != k ==> final(self).is_pressed(k2) == old(self).is_pressed(k2),
    {
        proof {
            lemma_key_index_bounds(k);
        }
        let i = key_index(k);
        self.pressed[i] = down;
        proof {
            assert forall|k2: Key| k2 != k implies self.is_pressed(k2) == old(
                self,
            ).is_pressed(k2) by {
                lemma_key_index_bounds(k2);
                lemma_key_index_injective(k2, k);
            }
        }
    }

    /// Whether a key is currently pressed.
    pub fn key_pressed(&self, k: Key) -> (down: bool)
        requires
            self.wf(),
        ensures
            down == self.is_pressed(k),
    {
        proof {
            lemma_key_index_bounds(k);
        }
        let i = key_index(k);
        self.pressed[i]
    }
}

} // verus!
