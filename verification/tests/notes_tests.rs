use wavetable_designer::notes::{note_name, note_octave, note_picker_notes};

#[test]
fn names_and_octaves() {
    assert_eq!(note_name(69), "A");
    assert_eq!(note_octave(69), 4);
    assert_eq!(note_name(60), "C");
    assert_eq!(note_octave(60), 4);
    assert_eq!(note_name(0), "C");
    assert_eq!(note_octave(0), -1);
    assert_eq!(note_name(33), "A");
    assert_eq!(note_octave(33), 1);
    assert_eq!(note_name(61), "C#");
    assert_eq!(note_name(127), "G");
    assert_eq!(note_octave(127), 9);
}

#[test]
fn picker_lists_notes_zero_to_119_in_order() {
    let notes = note_picker_notes();
    assert_eq!(notes.len(), 120);
    for (i, &n) in notes.iter().enumerate() {
        assert_eq!(n as usize, i);
    }
}

#[test]
fn every_note_round_trips_through_its_name_and_octave() {
    for note in 0u8..=127 {
        let octave = note_octave(note);
        let index = (note % 12) as i32;
        assert_eq!((octave + 1) * 12 + index, note as i32);
    }
}
