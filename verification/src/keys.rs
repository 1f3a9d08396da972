//! Key presses, as plain values.
use vstd::prelude::*;

verus! {

/// Which key.
#[derive(Clone, Copy, Debug, PartialEq, Eq, Structural)]
pub enum KeyCode {
    Backspace,
    Enter,
    Left,
    Right,
    Up,
    Down,
    Home,
    End,
    Tab,
    BackTab,
    Delete,
    Esc,
    Char(char),
    /// A key that neither the program nor its prompts act on.
    Other,
}

/// Whether a key goes down, repeats or comes up.
#[derive(Clone, Copy, Debug, PartialEq, Eq, Structural)]
pub enum KeyKind {
    Press,
    Repeat,
    Release,
}

/// The modifier keys held down with a key.
#[derive(Clone, Copy, Debug, PartialEq, Eq, Structural)]
pub struct Modifiers {
    pub shift: bool,
    pub control: bool,
    pub alt: bool,
    pub super_key: bool,
    pub hyper: bool,
    pub meta: bool,
}

/// One key event.
#[derive(Clone, Copy, Debug, PartialEq, Eq, Structural)]
pub struct Key {
    pub code: KeyCode,
    pub modifiers: Modifiers,
    pub kind: KeyKind,
}

/// An event of the terminal.
#[derive(Debug)]
pub enum Event {
    Key(Key),
    Paste(String),
    /// A resize, a mouse or a focus event.
    Other,
}

/// The weight of a flag in a bit set.
pub open spec fn weight(flag: bool, bit: int) -> int {
    if flag {
        bit
    } else {
        0
    }
}

impl Modifiers {
    /// The modifiers as a bit set: one bit each, shift the lowest, then control, alt, super,
    /// hyper and meta.
    pub open spec fn mask(self) -> int {
        weight(self.shift, 1) + weight(self.control, 2) + weight(self.alt, 4) + weight(
            self.super_key,
            8,
        ) + weight(self.hyper, 16) + weight(self.meta, 32)
    }

    /// The modifiers as a bit set.
    pub fn bits(&self) -> (bits: u8)
        ensures
            bits == self.mask(),
    {
        let mut bits: u8 = 0;
        if self.shift {
            bits = bits + 1;
        }
        if self.control {
            bits = bits + 2;
        }
        if self.alt {
            bits = bits + 4;
        }
        if self.super_key {
            bits = bits + 8;
        }
        if self.hyper {
            bits = bits + 16;
        }
        if self.meta {
            bits = bits + 32;
        }
        bits
    }
}

/// Each modifier is one bit of the set, whatever the others are.
pub proof fn modifiers_are_bits(modifiers: Modifiers)
    ensures
        0 <= modifiers.mask() < 64,
        modifiers.shift <==> modifiers.mask() % 2 == 1,
        modifiers.control <==> modifiers.mask() / 2 % 2 == 1,
        modifiers.alt <==> modifiers.mask() / 4 % 2 == 1,
        modifiers.super_key <==> modifiers.mask() / 8 % 2 == 1,
        modifiers.hyper <==> modifiers.mask() / 16 % 2 == 1,
        modifiers.meta <==> modifiers.mask() / 32 % 2 == 1,
{
}

} // verus!
