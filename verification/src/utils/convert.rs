use vstd::prelude::*;

verus! {

/// The number of semitones in an octave.
pub const NOTES_IN_OCTAVE: i32 = 12;

/// Whether an octave offset can be turned into semitones in an `i32`.
pub open spec fn octave_in_range(octaves: int) -> bool {
    i32::MIN <= octaves * 12 <= i32::MAX
}

/// The shift in semitones of an offset of `octaves` octaves.
pub fn octave_offset_to_notes(octaves: i32) -> (r: i32)
    requires
        octave_in_range(octaves as int),
    ensures
        r == octaves * 12,
{
    octaves * NOTES_IN_OCTAVE
}

} // verus!
