use midikeys::notes::Note;
use midikeys::translate::{Action, KeyEvent, SemanticKey, Translator};

fn press(scancode: u32) -> KeyEvent {
    KeyEvent { scancode, pressed: true, label: None }
}

fn release(scancode: u32) -> KeyEvent {
    KeyEvent { scancode, pressed: false, label: None }
}

fn press_labeled(scancode: u32, label: SemanticKey) -> KeyEvent {
    KeyEvent { scancode, pressed: true, label: Some(label) }
}

fn release_labeled(scancode: u32, label: SemanticKey) -> KeyEvent {
    KeyEvent { scancode, pressed: false, label: Some(label) }
}

const KEY_FOR_60: u32 = 18;
const SPACE: u32 = 57;
const DELETE: u32 = 111;
const ESCAPE: u32 = 1;

#[test]
fn press_and_release_give_note_on_then_off() {
    let mut t = Translator::new();
    let n = Note::new(60);
    assert_eq!(t.handle_event(press(KEY_FOR_60)), vec![Action::NoteOn(n)]);
    assert_eq!(t.handle_event(release(KEY_FOR_60)), vec![Action::NoteOff(n)]);
}

#[test]
fn sustain_defers_note_off_until_space_release() {
    let mut t = Translator::new();
    let n = Note::new(60);
    assert_eq!(
        t.handle_event(press_labeled(SPACE, SemanticKey::Space)),
        vec![Action::SustainOn]
    );
    assert_eq!(t.handle_event(press(KEY_FOR_60)), vec![Action::NoteOn(n)]);
    assert_eq!(t.handle_event(release(KEY_FOR_60)), vec![Action::NoAction]);
    assert_eq!(
        t.handle_event(release_labeled(SPACE, SemanticKey::Space)),
        vec![Action::SustainOff, Action::NoteOff(n)]
    );
}

#[test]
fn sustain_flushes_deferred_notes_in_insertion_order() {
    let mut t = Translator::new();
    assert_eq!(
        t.handle_event(press_labeled(SPACE, SemanticKey::Space)),
        vec![Action::SustainOn]
    );
    // Scancodes 18, 19, 20 map to notes 60, 61, 62.
    for code in [18u32, 19, 20] {
        t.handle_event(press(code));
        assert_eq!(t.handle_event(release(code)), vec![Action::NoAction]);
    }
    assert_eq!(
        t.handle_event(release_labeled(SPACE, SemanticKey::Space)),
        vec![
            Action::SustainOff,
            Action::NoteOff(Note::new(60)),
            Action::NoteOff(Note::new(61)),
            Action::NoteOff(Note::new(62)),
        ]
    );
}

#[test]
fn key_repeat_press_yields_no_action() {
    let mut t = Translator::new();
    let n = Note::new(60);
    assert_eq!(t.handle_event(press(KEY_FOR_60)), vec![Action::NoteOn(n)]);
    assert_eq!(t.handle_event(press(KEY_FOR_60)), vec![Action::NoAction]);
    assert_eq!(t.handle_event(press(KEY_FOR_60)), vec![Action::NoAction]);
    assert_eq!(t.handle_event(release(KEY_FOR_60)), vec![Action::NoteOff(n)]);
}

#[test]
fn unmapped_key_press_yields_no_action() {
    let mut t = Translator::new();
    assert_eq!(t.handle_event(press(100)), vec![Action::NoAction]);
    assert_eq!(t.handle_event(release(100)), vec![Action::NoAction]);
}

#[test]
fn unmatched_release_yields_no_action() {
    let mut t = Translator::new();
    assert_eq!(t.handle_event(release(KEY_FOR_60)), vec![Action::NoAction]);
}

#[test]
fn delete_kills_all_and_empties_the_tracker() {
    let mut t = Translator::new();
    t.handle_event(press(18));
    t.handle_event(press(19));
    t.handle_event(press(20));
    assert_eq!(t.pressed_count(), 3);
    assert_eq!(
        t.handle_event(press_labeled(DELETE, SemanticKey::Delete)),
        vec![Action::KillAll]
    );
    assert_eq!(t.pressed_count(), 0);
    // Releases of the killed keys are now unmatched.
    assert_eq!(t.handle_event(release(18)), vec![Action::NoAction]);
}

#[test]
fn escape_always_exits_even_mid_sustain() {
    let mut t = Translator::new();
    t.handle_event(press_labeled(SPACE, SemanticKey::Space));
    t.handle_event(press(18));
    t.handle_event(release(18)); // deferred under the pedal
    assert_eq!(t.deferred_count(), 1);
    assert_eq!(
        t.handle_event(press_labeled(ESCAPE, SemanticKey::Escape)),
        vec![Action::Exit]
    );
    // A release carrying the escape label exits too.
    assert_eq!(
        t.handle_event(release_labeled(ESCAPE, SemanticKey::Escape)),
        vec![Action::Exit]
    );
}

#[test]
fn space_repeat_press_does_not_retrigger_sustain() {
    let mut t = Translator::new();
    assert_eq!(
        t.handle_event(press_labeled(SPACE, SemanticKey::Space)),
        vec![Action::SustainOn]
    );
    assert_eq!(
        t.handle_event(press_labeled(SPACE, SemanticKey::Space)),
        vec![Action::NoAction]
    );
    assert!(t.pedal_held());
}
