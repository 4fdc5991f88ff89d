use vstd::prelude::*;

verus! {

/// The name of pitch class `index` (0 = C, ..., 11 = B), sharps spelled with `#`.
pub open spec fn pitch_class_name(index: int) -> Seq<char> {
    if index == 0 {
        "C"@
    } else if index == 1 {
        "C#"@
    } else if index == 2 {
        "D"@
    } else if index == 3 {
        "D#"@
    } else if index == 4 {
        "E"@
    } else if index == 5 {
        "F"@
    } else if index == 6 {
        "F#"@
    } else if index == 7 {
        "G"@
    } else if index == 8 {
        "G#"@
    } else if index == 9 {
        "A"@
    } else if index == 10 {
        "A#"@
    } else {
        "B"@
    }
}

/// The octave of a MIDI note in scientific pitch notation (note 0 is C-1, note 60 is C4).
pub open spec fn octave_of(note: int) -> int {
    note / 12 - 1
}

/// The name of the pitch class of a MIDI note, as shown by the note picker.
pub fn note_name(note: u8) -> (name: &'static str)
    ensures
        name@ == pitch_class_name(note as int % 12),
{
    let index = note % 12;
    if index == 0 {
        "C"
    } else if index == 1 {
        "C#"
    } else if index == 2 {
        "D"
    } else if index == 3 {
        "D#"
    } else if index == 4 {
        "E"
    } else if index == 5 {
        "F"
    } else if index == 6 {
        "F#"
    } else if index == 7 {
        "G"
    } else if index == 8 {
        "G#"
    } else if index == 9 {
        "A"
    } else if index == 10 {
        "A#"
    } else {
        "B"
    }
}

/// The octave of a MIDI note as shown by the note picker (note 0 is in octave -1).
pub fn note_octave(note: u8) -> (octave: i32)
    ensures
        octave == octave_of(note as int),
        octave >= -1,
        octave <= 20,
{
    (note / 12) as i32 - 1
}

/// The MIDI note the picker entry for `name_index` in `octave` selects.
pub open spec fn picker_note(octave: int, name_index: int) -> int {
    (octave + 1) * 12 + name_index
}

/// The notes the note picker offers, in menu order: octaves -1 through 8, each
/// from C to B, that is MIDI notes 0 through 119.
pub fn note_picker_notes() -> (notes: Vec<u8>)
    ensures
        notes@.len() == 120,
        forall|i: int| 0 <= i < 120 ==> #[trigger] notes@[i] == i,
        forall|octave: int, name_index: int|
            octave >= -1 && octave <= 8 && 0 <= name_index < 12 ==> #[trigger] notes@[picker_note(octave, name_index)]
                == picker_note(octave, name_index),
{
    let mut notes: Vec<u8> = Vec::new();
    // `row` is the octave plus one: row 0 is octave -1.
    let mut row: u8 = 0;
    while row < 10
        invariant
            row <= 10,
            notes@.len() == row * 12,
            forall|i: int| 0 <= i < notes@.len() ==> #[trigger] notes@[i] == i,
        decreases 10 - row,
    {
        let mut index: u8 = 0;
        while index < 12
            invariant
                row < 10,
                index <= 12,
                notes@.len() == row * 12 + index,
                forall|i: int| 0 <= i < notes@.len() ==> #[trigger] notes@[i] == i,
            decreases 12 - index,
        {
            notes.push(row * 12 + index);
            index = index + 1;
        }
        row = row + 1;
    }
    notes
}

/// Every MIDI note the picker can show is reached again by the picker entry for
/// its own name and octave: `(octave + 1) * 12 + pitch class == note`, with the
/// pitch class in `0..12` and, for notes below 120, the octave in `-1..=8`.
pub proof fn law_note_name_round_trip(note: u8)
    ensures
        0 <= note as int % 12 < 12,
        picker_note(octave_of(note as int), note as int % 12) == note,
        note < 120 ==> octave_of(note as int) >= -1 && octave_of(note as int) <= 8,
{
}

} // verus!

verus! {

/// The twelve pitch-class names in standard sharp spelling, C to B.
pub open spec fn standard_pitch_names() -> Seq<Seq<char>> {
    seq![
        "C"@, "C#"@, "D"@, "D#"@, "E"@, "F"@, "F#"@, "G"@, "G#"@, "A"@, "A#"@, "B"@,
    ]
}

/// Every note is named by its pitch class in standard sharp spelling: C, C#, D,
/// D#, E, F, F#, G, G#, A, A#, B for pitch classes 0 to 11.
pub proof fn law_pitch_names_are_standard(note: int)
    requires
        0 <= note,
    ensures
        pitch_class_name(note % 12) == standard_pitch_names()[note % 12],
{
}

} // verus!
