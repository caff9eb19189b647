use vstd::prelude::*;

verus! {

/// One of the sixteen keys of the hexadecimal keypad.
#[derive(Clone, Copy, Debug, PartialEq, Eq, Structural)]
pub enum Key {
    Key0,
    Key1,
    Key2,
    Key3,
    Key4,
    Key5,
    Key6,
    Key7,
    Key8,
    Key9,
    KeyA,
    KeyB,
    KeyC,
    KeyD,
    KeyE,
    KeyF,
}

impl Key {
    /// The hexadecimal digit printed on the key.
    pub open spec fn spec_value(self) -> u8 {
        match self {
            Key::Key0 => 0x0,
            Key::Key1 => 0x1,
            Key::Key2 => 0x2,
            Key::Key3 => 0x3,
            Key::Key4 => 0x4,
            Key::Key5 => 0x5,
            Key::Key6 => 0x6,
            Key::Key7 => 0x7,
            Key::Key8 => 0x8,
            Key::Key9 => 0x9,
            Key::KeyA => 0xA,
            Key::KeyB => 0xB,
            Key::KeyC => 0xC,
            Key::KeyD => 0xD,
            Key::KeyE => 0xE,
            Key::KeyF => 0xF,
        }
    }

    pub fn value(self) -> (r: u8)
        ensures
            r == self.spec_value(),
            r < 16,
    {
        match self {
            Key::Key0 => 0x0,
            Key::Key1 => 0x1,
            Key::Key2 => 0x2,
            Key::Key3 => 0x3,
            Key::Key4 => 0x4,
            Key::Key5 => 0x5,
            Key::Key6 => 0x6,
            Key::Key7 => 0x7,
            Key::Key8 => 0x8,
            Key::Key9 => 0x9,
            Key::KeyA => 0xA,
            Key::KeyB => 0xB,
            Key::KeyC => 0xC,
            Key::KeyD => 0xD,
            Key::KeyE => 0xE,
            Key::KeyF => 0xF,
        }
    }

    /// The key for a byte, or `None` when the byte is not a hexadecimal digit.
    pub fn from_u8(item: u8) -> (r: Option<Key>)
        ensures
            r is Some <==> item < 16,
            r matches Some(k) ==> k.spec_value() == item,
    {
        match item {
            0x0 => Some(Key::Key0),
            0x1 => Some(Key::Key1),
            0x2 => Some(Key::Key2),
            0x3 => Some(Key::Key3),
            0x4 => Some(Key::Key4),
            0x5 => Some(Key::Key5),
            0x6 => Some(Key::Key6),
            0x7 => Some(Key::Key7),
            0x8 => Some(Key::Key8),
            0x9 => Some(Key::Key9),
            0xA => Some(Key::KeyA),
            0xB => Some(Key::KeyB),
            0xC => Some(Key::KeyC),
            0xD => Some(Key::KeyD),
            0xE => Some(Key::KeyE),
            0xF => Some(Key::KeyF),
            _ => None,
        }
    }
}

/// A source of key presses: a poll and a blocking wait.
pub trait Keyboard {
    fn is_key_down(&self, key: Key) -> bool;

    fn wait_key_down(&self) -> Key;
}

} // verus!
