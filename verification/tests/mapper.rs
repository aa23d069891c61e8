use midikeys::notes::{get_midi_note, scancode_to_note_index, Note};

#[test]
fn bottom_row_maps_from_36() {
    assert_eq!(scancode_to_note_index(44), Some(36));
    assert_eq!(scancode_to_note_index(45), Some(37));
    assert_eq!(scancode_to_note_index(53), Some(45));
}

#[test]
fn home_row_continues_at_46() {
    assert_eq!(scancode_to_note_index(30), Some(46));
    assert_eq!(scancode_to_note_index(41), Some(57));
}

#[test]
fn iso_extra_key_aliases_last_home_note() {
    assert_eq!(scancode_to_note_index(43), Some(57));
}

#[test]
fn top_row_continues_at_58() {
    assert_eq!(scancode_to_note_index(16), Some(58));
    assert_eq!(scancode_to_note_index(18), Some(60));
    assert_eq!(scancode_to_note_index(27), Some(69));
}

#[test]
fn number_row_continues_at_70() {
    assert_eq!(scancode_to_note_index(2), Some(70));
    assert_eq!(scancode_to_note_index(13), Some(81));
}

#[test]
fn keys_outside_the_rows_have_no_note() {
    for code in [0u32, 1, 14, 15, 28, 29, 42, 54, 55, 56, 57, 100, 1000, u32::MAX] {
        assert_eq!(scancode_to_note_index(code), None);
        assert_eq!(get_midi_note(code), None);
    }
}

#[test]
fn mapping_is_strictly_increasing_by_position() {
    // Left to right, bottom to top: bottom row, home row, top row, number row.
    let in_position_order: Vec<u32> =
        (44..=53).chain(30..=41).chain(16..=27).chain(2..=13).collect();
    let notes: Vec<u8> = in_position_order
        .iter()
        .map(|&c| scancode_to_note_index(c).unwrap())
        .collect();
    for pair in notes.windows(2) {
        assert!(pair[0] < pair[1]);
    }
    assert_eq!(notes.first(), Some(&36));
    assert_eq!(notes.last(), Some(&81));
}

#[test]
fn mapper_is_deterministic() {
    for code in 0..2000u32 {
        assert_eq!(scancode_to_note_index(code), scancode_to_note_index(code));
    }
}

#[test]
fn get_midi_note_wraps_the_number() {
    assert_eq!(get_midi_note(18), Some(Note { num: 60 }));
    assert_eq!(get_midi_note(44), Some(Note::new(36)));
}
