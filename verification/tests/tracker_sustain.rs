use midikeys::notes::Note;
use midikeys::sustain::Sustain;
use midikeys::tracker::KeyTracker;
use midikeys::translate::Action;

#[test]
fn first_press_is_effective_second_is_not() {
    let mut t = KeyTracker::new();
    assert!(t.on_press(30));
    assert!(!t.on_press(30));
    assert!(!t.on_press(30));
}

#[test]
fn press_is_effective_again_after_release() {
    let mut t = KeyTracker::new();
    assert!(t.on_press(30));
    assert!(t.on_release(30));
    assert!(t.on_press(30));
}

#[test]
fn unmatched_release_is_spurious() {
    let mut t = KeyTracker::new();
    assert!(!t.on_release(30));
    assert!(t.on_press(30));
    assert!(t.on_release(30));
    assert!(!t.on_release(30));
}

#[test]
fn clear_empties_the_tracker() {
    let mut t = KeyTracker::new();
    assert!(t.on_press(30));
    assert!(t.on_press(31));
    assert!(t.on_press(32));
    assert_eq!(t.len(), 3);
    t.clear();
    assert_eq!(t.len(), 0);
    assert!(!t.on_release(30));
}

#[test]
fn pedal_up_without_deferral_returns_nothing() {
    let mut s = Sustain::new();
    assert_eq!(s.pedal_up(), vec![]);
    s.pedal_down();
    assert_eq!(s.pedal_up(), vec![]);
}

#[test]
fn release_with_pedal_up_is_immediate() {
    let mut s = Sustain::new();
    let n = Note::new(60);
    assert_eq!(s.note_released(n), Some(Action::NoteOff(n)));
    assert_eq!(s.pedal_up(), vec![]);
}

#[test]
fn release_with_pedal_down_is_deferred() {
    let mut s = Sustain::new();
    s.pedal_down();
    let n = Note::new(60);
    assert_eq!(s.note_released(n), None);
    assert_eq!(s.deferred_len(), 1);
    assert_eq!(s.pedal_up(), vec![n]);
    assert_eq!(s.deferred_len(), 0);
}

#[test]
fn deferred_notes_come_back_once_each_in_order() {
    let mut s = Sustain::new();
    s.pedal_down();
    let a = Note::new(60);
    let b = Note::new(62);
    let c = Note::new(64);
    assert_eq!(s.note_released(a), None);
    assert_eq!(s.note_released(b), None);
    assert_eq!(s.note_released(a), None); // deferred at most once
    assert_eq!(s.note_released(c), None);
    assert_eq!(s.pedal_up(), vec![a, b, c]);
    assert_eq!(s.pedal_up(), vec![]);
}

#[test]
fn pedal_down_is_idempotent() {
    let mut s = Sustain::new();
    s.pedal_down();
    s.pedal_down();
    assert!(s.is_held());
    let n = Note::new(60);
    assert_eq!(s.note_released(n), None);
    s.pedal_down(); // still one deferral outstanding, nothing lost
    assert_eq!(s.deferred_len(), 1);
    assert_eq!(s.pedal_up(), vec![n]);
}
