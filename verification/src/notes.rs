//! Naming of musical keys in equal temperament, where key 69 is A4.

use vstd::prelude::*;

verus! {

/// The key number of concert pitch A4.
pub const CONCERT_A: i16 = 69;

/// Position of `key` within its chromatic cycle of twelve, counted upward from A.
pub open spec fn chromatic_index(key: int) -> int {
    (key - 69) % 12
}

/// The name of the pitch class at `index` semitones above A.
pub open spec fn chromatic_name(index: int) -> Seq<char> {
    if index == 0 {
        seq!['A']
    } else if index == 1 {
        seq!['B', '♭']
    } else if index == 2 {
        seq!['B']
    } else if index == 3 {
        seq!['C']
    } else if index == 4 {
        seq!['D', '♭']
    } else if index == 5 {
        seq!['D']
    } else if index == 6 {
        seq!['E', '♭']
    } else if index == 7 {
        seq!['E']
    } else if index == 8 {
        seq!['F']
    } else if index == 9 {
        seq!['F', '♯']
    } else if index == 10 {
        seq!['G']
    } else {
        seq!['A', '♭']
    }
}

/// The note name of `key`: its pitch class, without the octave.
pub open spec fn note_name(key: int) -> Seq<char> {
    chromatic_name(chromatic_index(key))
}

/// The octave number of `key`: the quotient of the key by twelve, rounded
/// toward zero, less one. Key 69 lies in octave 4 and octaves turn over at C.
pub open spec fn note_octave(key: int) -> int {
    if key >= 0 {
        key / 12 - 1
    } else {
        -((-key) / 12) - 1
    }
}

/// Note name of a key, e.g. `"A"` for 69 and `"B♭"` for 70.
pub fn key_note_name(key: i16) -> (name: &'static str)
    ensures
        name@ == note_name(key as int),
{
    let index: i32 = (key as i32 + 32775) % 12;
    proof {
        reveal_strlit("A");
        reveal_strlit("B♭");
        reveal_strlit("B");
        reveal_strlit("C");
        reveal_strlit("D♭");
        reveal_strlit("D");
        reveal_strlit("E♭");
        reveal_strlit("E");
        reveal_strlit("F");
        reveal_strlit("F♯");
        reveal_strlit("G");
        reveal_strlit("A♭");
    }
    let name = if index == 0 {
        "A"
    } else if index == 1 {
        "B♭"
    } else if index == 2 {
        "B"
    } else if index == 3 {
        "C"
    } else if index == 4 {
        "D♭"
    } else if index == 5 {
        "D"
    } else if index == 6 {
        "E♭"
    } else if index == 7 {
        "E"
    } else if index == 8 {
        "F"
    } else if index == 9 {
        "F♯"
    } else if index == 10 {
        "G"
    } else {
        "A♭"
    };
    name
}

/// Octave number of a key.
pub fn key_note_octave(key: i16) -> (octave: i16)
    ensures
        octave == note_octave(key as int),
{
    key / 12 - 1
}

} // verus!
