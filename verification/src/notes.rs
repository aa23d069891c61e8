//! The note mapper: a pure, deterministic function taking physical key
//! scancodes to MIDI note numbers.
//!
//! Four rows of a QWERTY keyboard are mapped left-to-right, bottom-to-top to
//! a contiguous ascending range of notes, offset so that the lowest mapped
//! key lands on note 36. Scancode 43 (the extra key an ISO home row has)
//! sounds the same note as the last home-row key.

use vstd::prelude::*;

verus! {

/// A musical pitch in the 0..=127 note-number range of the MIDI protocol.
#[derive(Clone, Copy, PartialEq, Eq, Structural, Debug, Hash)]
pub struct Note {
    pub num: u8,
}

impl Note {
    /// A note is well formed when its number fits the protocol's 7-bit range.
    pub open spec fn wf(self) -> bool {
        self.num <= 127
    }

    pub fn new(num: u8) -> (r: Note)
        requires
            num <= 127,
        ensures
            r.num == num,
            r.wf(),
    {
        Note { num }
    }
}

/// The four mapped keyboard rows, by scancode: bottom (z..), home (a..),
/// top (q..) and the number row.
pub open spec fn in_mapped_rows(code: u32) -> bool {
    ||| 44 <= code <= 53
    ||| 30 <= code <= 41
    ||| 16 <= code <= 27
    ||| 2 <= code <= 13
}

/// The left-to-right, bottom-to-top position of a key within the mapped
/// rows: bottom row takes positions 0..=9, home row 10..=21, top row
/// 22..=33, number row 34..=45.
pub open spec fn key_position(code: u32) -> int
    recommends
        in_mapped_rows(code),
{
    if 44 <= code <= 53 {
        code - 44
    } else if 30 <= code <= 41 {
        code - 30 + 10
    } else if 16 <= code <= 27 {
        code - 16 + 22
    } else {
        code - 2 + 34
    }
}

/// The note number for a scancode: 36 plus the key's position, so the
/// mapped range is 36..=81. Scancode 43 sounds the last home-row note.
pub open spec fn spec_note_number(code: u32) -> Option<u8> {
    if in_mapped_rows(code) {
        Some((36 + key_position(code)) as u8)
    } else if code == 43 {
        Some(57)
    } else {
        None
    }
}

/// The mapped note for a scancode, if any.
pub open spec fn spec_note(code: u32) -> Option<Note> {
    match spec_note_number(code) {
        Some(n) => Some(Note { num: n }),
        None => None,
    }
}

/// Maps a scancode to its MIDI note number, going left to right, bottom to
/// top across the mapped rows, with the lowest mapped key on note 36.
pub fn scancode_to_note_index(code: u32) -> (r: Option<u8>)
    ensures
        r == spec_note_number(code),
{
    if 44 <= code && code <= 53 {
        Some((code - 44) as u8 + 36)
    } else if 30 <= code && code <= 41 {
        Some((code - 20) as u8 + 36)
    } else if code == 43 {
        Some(21u8 + 36)
    } else if 16 <= code && code <= 27 {
        Some((code + 6) as u8 + 36)
    } else if 2 <= code && code <= 13 {
        Some((code + 32) as u8 + 36)
    } else {
        None
    }
}

/// Maps a scancode to a note value, or nothing for unmapped keys.
pub fn get_midi_note(code: u32) -> (r: Option<Note>)
    ensures
        r == spec_note(code),
        r matches Some(n) ==> n.wf(),
{
    match scancode_to_note_index(code) {
        Some(num) => Some(Note::new(num)),
        None => None,
    }
}

/// Every mapped note number lies in 36..=81, comfortably inside the
/// protocol's 0..=127 range.
pub proof fn lemma_note_number_range(code: u32)
    requires
        spec_note_number(code) is Some,
    ensures
        36 <= spec_note_number(code).unwrap() <= 81,
        spec_note(code).unwrap().wf(),
{
}

/// Keys outside the mapped rows have no note: the mapper returns nothing
/// rather than failing. (Scancode 43 is the one key outside the four rows
/// that still maps; it doubles the last home-row note.)
pub proof fn lemma_unmapped_key_has_no_note(code: u32)
    requires
        !in_mapped_rows(code),
        code != 43,
    ensures
        spec_note(code) is None,
{
}

/// Within the mapped rows the mapper is a strictly increasing function of
/// key position: a key further right, or on a higher row, always sounds a
/// strictly higher note.
pub proof fn lemma_mapper_strictly_increasing(k1: u32, k2: u32)
    requires
        in_mapped_rows(k1),
        in_mapped_rows(k2),
        key_position(k1) < key_position(k2),
    ensures
        spec_note(k1) is Some,
        spec_note(k2) is Some,
        spec_note(k1).unwrap().num < spec_note(k2).unwrap().num,
{
}

} // verus!
