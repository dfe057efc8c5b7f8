//! The sixteen keys of the pad and their indices.

use vstd::prelude::*;

verus! {

/// A key of the hexadecimal pad, named by its symbol.
#[derive(PartialEq, Eq, Structural, Debug, Copy, Clone)]
pub enum Keycode {
    Num1,
    Num2,
    Num3,
    Num4,
    Num5,
    Num6,
    Num7,
    Num8,
    Num9,
    Num0,
    A,
    B,
    C,
    D,
    E,
    F,
}

/// The keys in the order of their indices.
pub const KEYMAP: [Keycode; 16] = [
    Keycode::Num1,
    Keycode::Num2,
    Keycode::Num3,
    Keycode::Num4,
    Keycode::Num5,
    Keycode::Num6,
    Keycode::Num7,
    Keycode::Num8,
    Keycode::Num9,
    Keycode::Num0,
    Keycode::A,
    Keycode::B,
    Keycode::C,
    Keycode::D,
    Keycode::E,
    Keycode::F,
];

/// The index, 0 to 15, under which the machine knows a key.
pub open spec fn key_index(keycode: Keycode) -> u8 {
    match keycode {
        Keycode::Num1 => 0,
        Keycode::Num2 => 1,
        Keycode::Num3 => 2,
        Keycode::Num4 => 3,
        Keycode::Num5 => 4,
        Keycode::Num6 => 5,
        Keycode::Num7 => 6,
        Keycode::Num8 => 7,
        Keycode::Num9 => 8,
        Keycode::Num0 => 9,
        Keycode::A => 10,
        Keycode::B => 11,
        Keycode::C => 12,
        Keycode::D => 13,
        Keycode::E => 14,
        Keycode::F => 15,
    }
}

/// The mapping from keys to indices is one to one and reaches every index
/// from 0 to 15: looking a key's index up in the table gives the key back,
/// and the key listed at an index has that index.
pub proof fn lemma_key_index_bijective(keycode: Keycode, index: u8)
    requires
        index < 16,
    ensures
        key_index(keycode) < 16,
        KEYMAP@[key_index(keycode) as int] == keycode,
        key_index(KEYMAP@[index as int]) == index,
{
}

impl Keycode {
    /// Looks the key up in the table.
    pub fn index(&self) -> (index: u8)
        ensures
            index == key_index(*self),
    {
        proof {
            lemma_key_index_bijective(*self, 0);
        }
        let mut position: u8 = 0;
        while KEYMAP[position as usize] != *self
            invariant
                position <= key_index(*self) < 16,
                KEYMAP@[key_index(*self) as int] == *self,
                forall|j: int| 0 <= j < position ==> KEYMAP@[j] != *self,
            decreases 16 - position,
        {
            position = position + 1;
        }
        proof {
            lemma_key_index_bijective(*self, position);
        }
        position
    }
}

} // verus!
