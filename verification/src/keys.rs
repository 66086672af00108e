//! Keys, as far as the composer and its panels tell them apart.

use vstd::prelude::*;

verus! {

/// A key.
#[derive(Clone, Copy, Debug, Eq, PartialEq, Structural)]
pub enum KeyCode {
    Esc,
    Enter,
    Tab,
    Char(char),
    F(u8),
    Other(u8),
}

/// A key with the modifiers that are held down, one bit for each.
#[derive(Clone, Copy, Debug, Eq, PartialEq, Structural)]
pub struct KeyChord {
    pub code: KeyCode,
    pub modifiers: u8,
}

/// Whether a chord is among some bindings.
pub fn is_bound(bindings: &Vec<KeyChord>, chord: KeyChord) -> (bound: bool)
    ensures
        bound == bindings@.contains(chord),
{
    let mut i: usize = 0;
    while i < bindings.len()
        invariant
            0 <= i <= bindings.len(),
            forall|j: int| 0 <= j < i ==> bindings[j] != chord,
        decreases bindings.len() - i,
    {
        if bindings[i] == chord {
            assert(bindings@[i as int] == chord);
            return true;
        }
        i += 1;
    }
    false
}

} // verus!
