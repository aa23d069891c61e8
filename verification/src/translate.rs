//! The event translator: consumes one raw keyboard event at a time,
//! consults and updates the key-state tracker and the sustain state
//! machine, and produces the resulting logical actions.
//!
//! Escape always wins over every other reading of an event. A press is
//! acted on only when it is effective (the key was not already tracked), a
//! release only when it matches a tracked press. Releasing the space key
//! lifts the pedal and flushes every deferred note, so that one event may
//! produce the sustain-off marker followed by one note-off per deferred
//! note; every other event produces exactly one action.

use crate::notes;
use crate::notes::Note;
use crate::sustain::Sustain;
use crate::sustain::spec_defer;
use crate::tracker::KeyTracker;
use vstd::prelude::*;

verus! {

/// The semantic key labels the translator special-cases. Every other key
/// is interpreted through the note mapper alone.
#[derive(Clone, Copy, PartialEq, Eq, Structural, Debug)]
pub enum SemanticKey {
    Escape,
    Delete,
    Space,
}

/// One raw keyboard event: the physical key's scancode, whether it was
/// pressed or released, and the semantic label if the key has one.
#[derive(Clone, Copy, Debug)]
pub struct KeyEvent {
    pub scancode: u32,
    pub pressed: bool,
    pub label: Option<SemanticKey>,
}

/// The result of translating one raw input event.
#[derive(Clone, Copy, PartialEq, Eq, Structural, Debug)]
pub enum Action {
    Exit,
    NoteOn(Note),
    NoteOff(Note),
    SustainOn,
    SustainOff,
    KillAll,
    NoAction,
}

/// The translator's abstract state: which keys are tracked as pressed,
/// whether the pedal is held, and the deferred notes in insertion order.
#[verifier::ext_equal]
pub struct TransState {
    pub pressed: Set<u32>,
    pub held: bool,
    pub deferred: Seq<Note>,
}

/// A session starts with no key tracked, the pedal up and nothing deferred.
pub open spec fn init_state() -> TransState {
    TransState { pressed: Set::empty(), held: false, deferred: Seq::empty() }
}

/// Notes are deferred only while the pedal is held, each at most once, and
/// every deferred note is protocol-valid.
pub open spec fn state_wf(s: TransState) -> bool {
    &&& s.deferred.len() > 0 ==> s.held
    &&& forall|i: int, j: int| 0 <= i < j < s.deferred.len() ==> s.deferred[i] != s.deferred[j]
    &&& forall|i: int| 0 <= i < s.deferred.len() ==> s.deferred[i].wf()
}

/// The state after one raw event, following the translation table: Escape
/// changes nothing; a Delete press clears the tracker; an effective press
/// tracks the key (and holds the pedal for Space); a matched release
/// untracks the key, and for Space lifts the pedal and empties the deferred
/// set, while for a mapped note it defers the note when the pedal is held.
pub open spec fn spec_step(s: TransState, ev: KeyEvent) -> TransState {
    if ev.label == Some(SemanticKey::Escape) {
        s
    } else if ev.pressed {
        if ev.label == Some(SemanticKey::Delete) {
            TransState { pressed: Set::empty(), held: s.held, deferred: s.deferred }
        } else if !s.pressed.contains(ev.scancode) {
            if ev.label == Some(SemanticKey::Space) {
                TransState { pressed: s.pressed.insert(ev.scancode), held: true, deferred: s.deferred }
            } else {
                TransState { pressed: s.pressed.insert(ev.scancode), held: s.held, deferred: s.deferred }
            }
        } else {
            s
        }
    } else {
        if s.pressed.contains(ev.scancode) {
            if ev.label == Some(SemanticKey::Space) {
                TransState { pressed: s.pressed.remove(ev.scancode), held: false, deferred: Seq::empty() }
            } else {
                match notes::spec_note(ev.scancode) {
                    Some(n) => if s.held {
                        TransState {
                            pressed: s.pressed.remove(ev.scancode),
                            held: s.held,
                            deferred: spec_defer(s.deferred, n),
                        }
                    } else {
                        TransState { pressed: s.pressed.remove(ev.scancode), held: s.held, deferred: s.deferred }
                    },
                    None => TransState { pressed: s.pressed.remove(ev.scancode), held: s.held, deferred: s.deferred },
                }
            }
        } else {
            s
        }
    }
}

/// The actions one raw event produces. Exactly one action per event,
/// except a matched Space release, which produces the sustain-off marker
/// followed by one note-off per deferred note, in insertion order.
pub open spec fn spec_actions(s: TransState, ev: KeyEvent) -> Seq<Action> {
    if ev.label == Some(SemanticKey::Escape) {
        seq![Action::Exit]
    } else if ev.pressed {
        if ev.label == Some(SemanticKey::Delete) {
            seq![Action::KillAll]
        } else if !s.pressed.contains(ev.scancode) {
            if ev.label == Some(SemanticKey::Space) {
                seq![Action::SustainOn]
            } else {
                match notes::spec_note(ev.scancode) {
                    Some(n) => seq![Action::NoteOn(n)],
                    None => seq![Action::NoAction],
                }
            }
        } else {
            seq![Action::NoAction]
        }
    } else {
        if s.pressed.contains(ev.scancode) {
            if ev.label == Some(SemanticKey::Space) {
                seq![Action::SustainOff] + s.deferred.map_values(|n: Note| Action::NoteOff(n))
            } else {
                match notes::spec_note(ev.scancode) {
                    Some(n) => if s.held {
                        seq![Action::NoAction]
                    } else {
                        seq![Action::NoteOff(n)]
                    },
                    None => seq![Action::NoAction],
                }
            }
        } else {
            seq![Action::NoAction]
        }
    }
}

/// The translation engine for one session: owns the key-state tracker and
/// the sustain state machine, and is driven one raw event at a time.
pub struct Translator {
    tracker: KeyTracker,
    sustain: Sustain,
}

impl View for Translator {
    type V = TransState;

    closed spec fn view(&self) -> TransState {
        TransState {
            pressed: self.tracker@,
            held: self.sustain.pedal_held(),
            deferred: self.sustain.deferred_notes(),
        }
    }
}

impl Translator {
    /// Both components are well formed.
    pub closed spec fn wf(&self) -> bool {
        self.tracker.wf() && self.sustain.wf()
    }

    pub fn new() -> (r: Translator)
        ensures
            r.wf(),
            r@ == init_state(),
            state_wf(r@),
    {
        let r = Translator { tracker: KeyTracker::new(), sustain: Sustain::new() };
        proof {
            assert(r@ =~= init_state());
        }
        r
    }

    /// How many keys are currently tracked as pressed.
    pub fn pressed_count(&self) -> (r: usize)
        requires
            self.wf(),
        ensures
            r == self@.pressed.len(),
    {
        self.tracker.len()
    }

    /// Whether the sustain pedal is currently held.
    pub fn pedal_held(&self) -> (r: bool)
        ensures
            r == self@.held,
    {
        self.sustain.is_held()
    }

    /// How many notes are currently deferred under the pedal.
    pub fn deferred_count(&self) -> (r: usize)
        ensures
            r == self@.deferred.len(),
    {
        self.sustain.deferred_len()
    }

    /// Translates one raw event: updates the tracker and the sustain state
    /// as the transition table says, and returns the produced actions.
    pub fn handle_event(&mut self, ev: KeyEvent) -> (r: Vec<Action>)
        requires
            old(self).wf(),
        ensures
            final(self).wf(),
            state_wf(final(self)@),
            final(self)@ == spec_step(old(self)@, ev),
            r@ == spec_actions(old(self)@, ev),
    {
        if matches!(ev.label, Some(SemanticKey::Escape)) {
            return single(Action::Exit);
        }
        if ev.pressed {
            if matches!(ev.label, Some(SemanticKey::Delete)) {
                self.tracker.clear();
                single(Action::KillAll)
            } else if self.tracker.on_press(ev.scancode) {
                if matches!(ev.label, Some(SemanticKey::Space)) {
                    self.sustain.pedal_down();
                    single(Action::SustainOn)
                } else {
                    match notes::get_midi_note(ev.scancode) {
                        Some(n) => single(Action::NoteOn(n)),
                        None => single(Action::NoAction),
                    }
                }
            } else {
                single(Action::NoAction)
            }
        } else {
            if self.tracker.on_release(ev.scancode) {
                if matches!(ev.label, Some(SemanticKey::Space)) {
                    let flushed = self.sustain.pedal_up();
                    let mut r = single(Action::SustainOff);
                    let mut i: usize = 0;
                    while i < flushed.len()
                        invariant
                            i <= flushed@.len(),
                            r@ == seq![Action::SustainOff] + flushed@.take(i as int).map_values(
                                |n: Note| Action::NoteOff(n),
                            ),
                        decreases flushed@.len() - i,
                    {
                        r.push(Action::NoteOff(flushed[i]));
                        proof {
                            let f = |n: Note| Action::NoteOff(n);
                            assert(flushed@.take(i + 1 as int).map_values(f) =~= flushed@.take(
                                i as int,
                            ).map_values(f).push(Action::NoteOff(flushed@[i as int])));
                            assert(r@ =~= seq![Action::SustainOff] + flushed@.take(
                                i + 1 as int,
                            ).map_values(f));
                        }
                        i += 1;
                    }
                    proof {
                        assert(flushed@.take(flushed@.len() as int) =~= flushed@);
                        assert(r@ =~= spec_actions(old(self)@, ev));
                    }
                    r
                } else {
                    match notes::get_midi_note(ev.scancode) {
                        Some(n) => match self.sustain.note_released(n) {
                            Some(a) => single(a),
                            None => single(Action::NoAction),
                        },
                        None => single(Action::NoAction),
                    }
                }
            } else {
                single(Action::NoAction)
            }
        }
    }
}

/// A one-action result.
fn single(a: Action) -> (r: Vec<Action>)
    ensures
        r@ == seq![a],
{
    let mut r: Vec<Action> = Vec::new();
    r.push(a);
    proof {
        assert(r@ =~= seq![a]);
    }
    r
}

/// The kill-all action empties the key-state tracker whatever keys were
/// pressed before, touching neither the pedal nor the deferred notes.
pub proof fn lemma_kill_all_empties_tracker(s: TransState, ev: KeyEvent)
    requires
        ev.pressed,
        ev.label == Some(SemanticKey::Delete),
    ensures
        spec_step(s, ev).pressed == Set::<u32>::empty(),
        spec_step(s, ev).held == s.held,
        spec_step(s, ev).deferred == s.deferred,
        spec_actions(s, ev) == seq![Action::KillAll],
{
}

/// One event produces exactly one action — except a matched release of the
/// space key, whose flush produces the sustain-off marker plus one note-off
/// per deferred note.
pub proof fn lemma_one_action_per_event(s: TransState, ev: KeyEvent)
    ensures
        (ev.label == Some(SemanticKey::Escape) || ev.pressed || !s.pressed.contains(ev.scancode)
            || !(ev.label == Some(SemanticKey::Space))) ==> spec_actions(s, ev).len() == 1,
        (!(ev.label == Some(SemanticKey::Escape)) && !ev.pressed && s.pressed.contains(ev.scancode)
            && ev.label == Some(SemanticKey::Space)) ==> spec_actions(s, ev).len() == 1
            + s.deferred.len(),
{
}

/// A step from a well-formed state stays well formed, and every note its
/// actions carry is protocol-valid (so each can be serialized).
pub proof fn lemma_step_preserves_wf(s: TransState, ev: KeyEvent)
    requires
        state_wf(s),
    ensures
        state_wf(spec_step(s, ev)),
        forall|i: int|
            0 <= i < spec_actions(s, ev).len() ==> action_note_wf(#[trigger] spec_actions(s, ev)[i]),
{
    let acts = spec_actions(s, ev);
    if ev.label == Some(SemanticKey::Escape) {
    } else if ev.pressed {
        if !(ev.label == Some(SemanticKey::Delete)) && !s.pressed.contains(ev.scancode) && !(
        ev.label == Some(SemanticKey::Space)) {
            if notes::spec_note(ev.scancode) is Some {
                notes::lemma_note_number_range(ev.scancode);
            }
        }
    } else {
        if s.pressed.contains(ev.scancode) {
            if ev.label == Some(SemanticKey::Space) {
                let f = |n: Note| Action::NoteOff(n);
                assert forall|i: int| 0 <= i < acts.len() implies action_note_wf(
                    #[trigger] acts[i],
                ) by {
                    if i > 0 {
                        assert(acts[i] == s.deferred.map_values(f)[i - 1]);
                        assert(acts[i] == Action::NoteOff(s.deferred[i - 1]));
                    }
                }
            } else {
                match notes::spec_note(ev.scancode) {
                    Some(n) => {
                        notes::lemma_note_number_range(ev.scancode);
                        if s.held {
                            crate::sustain::lemma_defer_records_note(s.deferred, n);
                        }
                    }
                    None => {}
                }
            }
        }
    }
}

/// Whether an action's note, if it has one, fits the protocol's range.
pub open spec fn action_note_wf(a: Action) -> bool {
    match a {
        Action::NoteOn(n) => n.wf(),
        Action::NoteOff(n) => n.wf(),
        _ => true,
    }
}

} // verus!
