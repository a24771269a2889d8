//! Layout of the piano keyboard: which keys are black, and where each key sits.
use vstd::prelude::*;

verus! {

/// Position of a key within its octave, counting from C.
pub open spec fn octave_position(key: int) -> int {
    key % 12
}

/// C#, D#, F#, G# and A# are black.
pub open spec fn black_position(p: int) -> bool {
    p == 1 || p == 3 || p == 6 || p == 8 || p == 10
}

/// Number of white keys before position `p` of an octave (the white key a black one follows).
pub open spec fn white_keys_before(p: int) -> int {
    if p <= 1 {
        0
    } else if p <= 3 {
        1
    } else if p == 4 {
        2
    } else if p <= 6 {
        3
    } else if p <= 8 {
        4
    } else if p <= 10 {
        5
    } else {
        6
    }
}

/// Offset of the black key at position `p` of an octave, in tenths of a white key width.
pub open spec fn black_key_offset(p: int) -> int {
    if p == 1 {
        7
    } else if p == 3 {
        17
    } else if p == 6 {
        33
    } else if p == 8 {
        43
    } else if p == 10 {
        53
    } else {
        0
    }
}

/// Whether `key_index` is a black key.
pub fn is_black_key(key_index: usize) -> (r: bool)
    ensures
        r == black_position(octave_position(key_index as int)),
{
    let octave_pos = key_index % 12;
    octave_pos == 1 || octave_pos == 3 || octave_pos == 6 || octave_pos == 8 || octave_pos == 10
}

/// Index of `key_index` among the white keys (for a black key: of the white key before it).
pub fn get_white_key_index(key_index: usize) -> (r: usize)
    ensures
        r == (key_index as int / 12) * 7 + white_keys_before(octave_position(key_index as int)),
{
    let octave = key_index / 12;
    let octave_pos = key_index % 12;
    let white_keys_in_octave: [usize; 12] = [0, 0, 1, 1, 2, 3, 3, 4, 4, 5, 5, 6];
    assert(octave * 7 + 6 <= usize::MAX) by (nonlinear_arith)
        requires octave == key_index / 12, key_index <= usize::MAX;
    octave * 7 + white_keys_in_octave[octave_pos]
}

/// Horizontal offset of a black key from the start of its octave, in tenths of a white key
/// width; zero for a white key.
pub fn get_black_key_offset(key_index: usize) -> (r: u32)
    ensures
        r == black_key_offset(octave_position(key_index as int)),
{
    let octave_pos = key_index % 12;
    match octave_pos {
        1 => 7,
        3 => 17,
        6 => 33,
        8 => 43,
        10 => 53,
        _ => 0,
    }
}

} // verus!
