//! The message codec: serializes a note action into the fixed-layout wire
//! frame the output transport consumes.
//!
//! A note message is three bytes: a status byte combining the message type
//! (note-on 0x90, note-off 0x80) with the zero-based channel, then the note
//! number and the velocity, each in the protocol's 7-bit range. The wire
//! velocity convention of this engine is fixed: note-on at full velocity,
//! note-off at velocity zero (receivers commonly ignore note-off velocity;
//! one convention is picked and documented here).

use crate::translate::Action;
use vstd::prelude::*;

verus! {

/// The velocity every note-on is sent with.
pub const NOTE_ON_VELOCITY: u8 = 127;

/// The velocity every note-off is sent with.
pub const NOTE_OFF_VELOCITY: u8 = 0;

/// Why an action could not be serialized. Encoding fails only for a value
/// outside the protocol's 7-bit range; such a frame is dropped by the
/// caller and the session continues.
#[derive(Clone, Copy, PartialEq, Eq, Structural, Debug)]
pub enum EncodingError {
    NoteOutOfRange,
    VelocityOutOfRange,
}

/// The status byte of a note-on message on `channel` (1..=16).
pub open spec fn spec_note_on_status(channel: u8) -> u8 {
    (0x90 + channel - 1) as u8
}

/// The status byte of a note-off message on `channel` (1..=16).
pub open spec fn spec_note_off_status(channel: u8) -> u8 {
    (0x80 + channel - 1) as u8
}

/// The 3-byte frame for a note action at a given velocity. Only note-on
/// and note-off have a wire form.
pub open spec fn spec_frame(a: Action, channel: u8, velocity: u8) -> Option<Seq<u8>> {
    match a {
        Action::NoteOn(n) => Some(seq![spec_note_on_status(channel), n.num, velocity]),
        Action::NoteOff(n) => Some(seq![spec_note_off_status(channel), n.num, velocity]),
        _ => None,
    }
}

/// The frame an action puts on the wire under this engine's velocity
/// convention: note-on at full velocity, note-off at velocity zero; every
/// other action produces no wire message.
pub open spec fn spec_wire_frame(a: Action, channel: u8) -> Option<Seq<u8>> {
    match a {
        Action::NoteOn(_) => spec_frame(a, channel, NOTE_ON_VELOCITY),
        Action::NoteOff(_) => spec_frame(a, channel, NOTE_OFF_VELOCITY),
        _ => None,
    }
}

/// Serializes a note action into its 3-byte wire frame. Encoding fails
/// exactly when the note number or the velocity is outside the protocol's
/// 0..=127 range; actions without a wire form never reach the codec.
pub fn encode(action: &Action, channel: u8, velocity: u8) -> (r: Result<Vec<u8>, EncodingError>)
    requires
        *action is NoteOn || *action is NoteOff,
        1 <= channel <= 16,
    ensures
        ({
            let note = match *action {
                Action::NoteOn(n) => n,
                Action::NoteOff(n) => n,
                _ => arbitrary(),
            };
            if note.num > 127 {
                r == Err::<Vec<u8>, EncodingError>(EncodingError::NoteOutOfRange)
            } else if velocity > 127 {
                r == Err::<Vec<u8>, EncodingError>(EncodingError::VelocityOutOfRange)
            } else {
                r matches Ok(f) && f@ == spec_frame(*action, channel, velocity).unwrap()
            }
        }),
{
    match action {
        Action::NoteOn(n) => {
            if n.num > 127 {
                Err(EncodingError::NoteOutOfRange)
            } else if velocity > 127 {
                Err(EncodingError::VelocityOutOfRange)
            } else {
                Ok(frame3(0x90 + (channel - 1), n.num, velocity))
            }
        }
        Action::NoteOff(n) => {
            if n.num > 127 {
                Err(EncodingError::NoteOutOfRange)
            } else if velocity > 127 {
                Err(EncodingError::VelocityOutOfRange)
            } else {
                Ok(frame3(0x80 + (channel - 1), n.num, velocity))
            }
        }
        _ => unreached(),
    }
}

/// A three-byte frame.
fn frame3(b0: u8, b1: u8, b2: u8) -> (r: Vec<u8>)
    ensures
        r@ == seq![b0, b1, b2],
{
    let mut r: Vec<u8> = Vec::new();
    r.push(b0);
    r.push(b1);
    r.push(b2);
    proof {
        assert(r@ =~= seq![b0, b1, b2]);
    }
    r
}

} // verus!
