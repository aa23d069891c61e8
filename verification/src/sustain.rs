//! The sustain-pedal state machine: a pedal-held flag plus the notes whose
//! note-off has been deferred while the pedal is held.
//!
//! Releasing a note routes through `note_released`, the single place where
//! note-off decisions are made: with the pedal up the note-off is immediate,
//! with the pedal down it is deferred until `pedal_up` drains the deferred
//! notes in insertion order.

use crate::notes::Note;
use crate::translate::Action;
use vstd::prelude::*;

verus! {

/// Deferring a note under the pedal has set semantics in insertion order:
/// a note already deferred is not recorded twice.
pub open spec fn spec_defer(d: Seq<Note>, n: Note) -> Seq<Note> {
    if d.contains(n) {
        d
    } else {
        d.push(n)
    }
}

/// The transition `pedal_down` makes on the (pedal-held, deferred-notes)
/// state: the pedal is held and the deferred notes are untouched, whatever
/// the state was before.
pub open spec fn pedal_down_state(held: bool, deferred: Seq<Note>) -> (bool, Seq<Note>) {
    (true, deferred)
}

/// The sustain pedal and the notes it is currently holding back.
pub struct Sustain {
    held: bool,
    deferred: Vec<Note>,
}

impl Sustain {
    /// Whether the pedal is held.
    pub closed spec fn pedal_held(&self) -> bool {
        self.held
    }

    /// The deferred notes, in insertion order.
    pub closed spec fn deferred_notes(&self) -> Seq<Note> {
        self.deferred@
    }

    /// Notes are deferred only while the pedal is held, each at most once,
    /// and every deferred note is protocol-valid.
    pub open spec fn wf(&self) -> bool {
        &&& self.deferred_notes().len() > 0 ==> self.pedal_held()
        &&& forall|i: int, j: int|
            0 <= i < j < self.deferred_notes().len() ==> self.deferred_notes()[i]
                != self.deferred_notes()[j]
        &&& forall|i: int| 0 <= i < self.deferred_notes().len() ==> self.deferred_notes()[i].wf()
    }

    /// A session starts with the pedal up and nothing deferred.
    pub fn new() -> (r: Sustain)
        ensures
            r.wf(),
            !r.pedal_held(),
            r.deferred_notes() == Seq::<Note>::empty(),
    {
        Sustain { held: false, deferred: Vec::new() }
    }

    /// Holds the pedal. Idempotent: the state after the call is the same
    /// function of the deferred notes whether the pedal was up or down.
    pub fn pedal_down(&mut self)
        requires
            old(self).wf(),
        ensures
            final(self).wf(),
            final(self).pedal_held() == pedal_down_state(
                old(self).pedal_held(),
                old(self).deferred_notes(),
            ).0,
            final(self).deferred_notes() == pedal_down_state(
                old(self).pedal_held(),
                old(self).deferred_notes(),
            ).1,
    {
        self.held = true;
    }

    /// Releases the pedal: returns every deferred note exactly once, in
    /// insertion order, and leaves the deferred set empty. With nothing
    /// deferred the returned sequence is empty.
    pub fn pedal_up(&mut self) -> (r: Vec<Note>)
        requires
            old(self).wf(),
        ensures
            final(self).wf(),
            !final(self).pedal_held(),
            final(self).deferred_notes() == Seq::<Note>::empty(),
            r@ == old(self).deferred_notes(),
            forall|i: int, j: int| 0 <= i < j < r@.len() ==> r@[i] != r@[j],
            forall|i: int| 0 <= i < r@.len() ==> r@[i].wf(),
    {
        self.held = false;
        let mut out: Vec<Note> = Vec::new();
        core::mem::swap(&mut out, &mut self.deferred);
        out
    }

    /// Whether the pedal is currently held.
    pub fn is_held(&self) -> (r: bool)
        ensures
            r == self.pedal_held(),
    {
        self.held
    }

    /// How many notes are currently deferred.
    pub fn deferred_len(&self) -> (r: usize)
        ensures
            r == self.deferred_notes().len(),
    {
        self.deferred.len()
    }

    /// Whether `n` is already deferred.
    fn contains_note(&self, n: Note) -> (r: bool)
        ensures
            r == self.deferred@.contains(n),
    {
        let mut i: usize = 0;
        while i < self.deferred.len()
            invariant
                i <= self.deferred@.len(),
                forall|j: int| 0 <= j < i ==> self.deferred@[j] != n,
            decreases self.deferred@.len() - i,
        {
            if self.deferred[i] == n {
                return true;
            }
            i += 1;
        }
        false
    }

    /// Routes a note release: with the pedal up the note-off action is
    /// immediate; with the pedal down the note is deferred (at most once)
    /// and no action is produced now.
    pub fn note_released(&mut self, n: Note) -> (r: Option<Action>)
        requires
            old(self).wf(),
            n.wf(),
        ensures
            final(self).wf(),
            final(self).pedal_held() == old(self).pedal_held(),
            r == if old(self).pedal_held() {
                None::<Action>
            } else {
                Some(Action::NoteOff(n))
            },
            final(self).deferred_notes() == if old(self).pedal_held() {
                spec_defer(old(self).deferred_notes(), n)
            } else {
                old(self).deferred_notes()
            },
    {
        if self.held {
            if !self.contains_note(n) {
                self.deferred.push(n);
            }
            None
        } else {
            Some(Action::NoteOff(n))
        }
    }
}

/// Sustain deferral really records the note: after the pedal is held, a
/// released note joins the deferred set (with set semantics), stays unique,
/// and stays protocol-valid — so the later `pedal_up` hands back exactly the
/// deferred notes, each exactly once.
pub proof fn lemma_defer_records_note(d: Seq<Note>, n: Note)
    requires
        forall|i: int, j: int| 0 <= i < j < d.len() ==> d[i] != d[j],
        forall|i: int| 0 <= i < d.len() ==> d[i].wf(),
        n.wf(),
    ensures
        spec_defer(d, n).contains(n),
        spec_defer(d, n).to_set() == d.to_set().insert(n),
        forall|i: int, j: int|
            0 <= i < j < spec_defer(d, n).len() ==> spec_defer(d, n)[i] != spec_defer(d, n)[j],
        forall|i: int| 0 <= i < spec_defer(d, n).len() ==> spec_defer(d, n)[i].wf(),
{
    let e = spec_defer(d, n);
    if d.contains(n) {
        assert(e.to_set() =~= d.to_set().insert(n));
    } else {
        assert(e[d.len() as int] == n);
        assert forall|a: Note| e.to_set().contains(a) implies d.to_set().insert(n).contains(
            a,
        ) by {
            let j = choose|j: int| 0 <= j < e.len() && e[j] == a;
            if j < d.len() {
                assert(d[j] == a);
            }
        }
        assert forall|a: Note| d.to_set().insert(n).contains(a) implies e.to_set().contains(
            a,
        ) by {
            if a == n {
                assert(e[d.len() as int] == a);
            } else {
                let j = choose|j: int| 0 <= j < d.len() && d[j] == a;
                assert(e[j] == a);
            }
        }
        assert(e.to_set() =~= d.to_set().insert(n));
    }
}

/// Holding the pedal twice in a row has the same effect as once: the
/// `pedal_down` transition is idempotent.
pub proof fn lemma_pedal_down_idempotent(held: bool, deferred: Seq<Note>)
    ensures
        pedal_down_state(
            pedal_down_state(held, deferred).0,
            pedal_down_state(held, deferred).1,
        ) == pedal_down_state(held, deferred),
{
}

} // verus!
