//! A keyboard-to-MIDI translation engine.
//!
//! The library turns raw keyboard events (scancode, press/release, optional
//! semantic label) into outbound MIDI messages: it maps physical keys to
//! notes, tracks which keys are held to suppress OS key-repeat, runs the
//! sustain-pedal state machine, and serializes note-on/note-off actions into
//! 3-byte wire frames. Everything here is pure translation logic; the
//! surrounding application supplies the event source and the output port.

pub mod codec;
pub mod levels;
pub mod notes;
pub mod ports;
pub mod session;
pub mod sustain;
pub mod tracker;
pub mod translate;
