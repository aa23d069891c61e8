//! The key-state tracker: the set of physical keys currently considered
//! pressed by the engine.
//!
//! A key is a member exactly while a press has been observed without its
//! matching release. Tracking is what suppresses OS key-repeat presses and
//! spurious releases: a press is effective only for an untracked key, a
//! release only for a tracked one.

use vstd::prelude::*;

verus! {

/// The set of currently-pressed physical keys, by scancode.
pub struct KeyTracker {
    pressed: Vec<u32>,
}

impl View for KeyTracker {
    type V = Set<u32>;

    closed spec fn view(&self) -> Set<u32> {
        self.pressed@.to_set()
    }
}

impl KeyTracker {
    /// The backing vector holds each tracked key at most once.
    pub closed spec fn wf(&self) -> bool {
        forall|i: int, j: int|
            0 <= i < j < self.pressed@.len() ==> self.pressed@[i] != self.pressed@[j]
    }

    /// A session starts with no key tracked.
    pub fn new() -> (r: KeyTracker)
        ensures
            r.wf(),
            r@ == Set::<u32>::empty(),
    {
        let r = KeyTracker { pressed: Vec::new() };
        proof {
            assert(r.pressed@.to_set() =~= Set::<u32>::empty());
        }
        r
    }

    /// Where `key` sits in the backing vector, if it is tracked.
    fn find_index(&self, key: u32) -> (r: Option<usize>)
        ensures
            match r {
                Some(i) => i < self.pressed@.len() && self.pressed@[i as int] == key,
                None => !self@.contains(key),
            },
    {
        let mut i: usize = 0;
        while i < self.pressed.len()
            invariant
                i <= self.pressed@.len(),
                forall|j: int| 0 <= j < i ==> self.pressed@[j] != key,
            decreases self.pressed@.len() - i,
        {
            if self.pressed[i] == key {
                return Some(i);
            }
            i += 1;
        }
        None
    }

    /// Records a press. Reports true exactly when the press is effective,
    /// that is, when the key was not already tracked; a repeat press of a
    /// held key reports false and changes nothing.
    pub fn on_press(&mut self, key: u32) -> (r: bool)
        requires
            old(self).wf(),
        ensures
            final(self).wf(),
            r == !old(self)@.contains(key),
            final(self)@ == old(self)@.insert(key),
    {
        match self.find_index(key) {
            Some(_) => {
                proof {
                    assert(self@ =~= old(self)@.insert(key));
                }
                false
            }
            None => {
                let ghost old_seq = self.pressed@;
                self.pressed.push(key);
                proof {
                    let new_seq = self.pressed@;
                    assert(new_seq[old_seq.len() as int] == key);
                    assert forall|a: u32| new_seq.contains(a) implies old(self)@.insert(
                        key,
                    ).contains(a) by {
                        let j = choose|j: int| 0 <= j < new_seq.len() && new_seq[j] == a;
                        if j < old_seq.len() {
                            assert(old_seq[j] == a);
                        }
                    }
                    assert forall|a: u32| old(self)@.insert(key).contains(a) implies new_seq
                        .contains(a) by {
                        if a == key {
                            assert(new_seq[old_seq.len() as int] == a);
                        } else {
                            let j = choose|j: int| 0 <= j < old_seq.len() && old_seq[j] == a;
                            assert(new_seq[j] == a);
                        }
                    }
                    assert(self@ =~= old(self)@.insert(key));
                }
                true
            }
        }
    }

    /// Records a release. Reports true exactly when the key was tracked,
    /// that is, when a matching press is outstanding; a release without one
    /// is spurious, reports false, and changes nothing.
    pub fn on_release(&mut self, key: u32) -> (r: bool)
        requires
            old(self).wf(),
        ensures
            final(self).wf(),
            r == old(self)@.contains(key),
            final(self)@ == old(self)@.remove(key),
    {
        match self.find_index(key) {
            Some(i) => {
                let ghost old_seq = self.pressed@;
                self.pressed.remove(i);
                proof {
                    old_seq.remove_ensures(i as int);
                    let new_seq = self.pressed@;
                    assert forall|a: u32| new_seq.contains(a) implies old_seq.contains(a)
                        && a != key by {
                        let j = choose|j: int| 0 <= j < new_seq.len() && new_seq[j] == a;
                        if j < i {
                            assert(old_seq[j] == a);
                        } else {
                            assert(old_seq[j + 1] == a);
                        }
                    }
                    assert forall|a: u32| old_seq.contains(a) && a != key implies new_seq.contains(
                        a,
                    ) by {
                        let j = choose|j: int| 0 <= j < old_seq.len() && old_seq[j] == a;
                        if j < i {
                            assert(new_seq[j] == a);
                        } else {
                            assert(j != i);
                            assert(new_seq[j - 1] == a);
                        }
                    }
                    assert(self@ =~= old(self)@.remove(key));
                }
                true
            }
            None => {
                proof {
                    assert(self@ =~= old(self)@.remove(key));
                }
                false
            }
        }
    }

    /// Forgets every tracked key, as the kill-all action asks.
    pub fn clear(&mut self)
        ensures
            final(self).wf(),
            final(self)@ == Set::<u32>::empty(),
    {
        self.pressed.clear();
        proof {
            assert(self@ =~= Set::<u32>::empty());
        }
    }

    /// How many keys are tracked.
    pub fn len(&self) -> (r: usize)
        requires
            self.wf(),
        ensures
            r == self@.len(),
    {
        proof {
            self.pressed@.unique_seq_to_set();
        }
        self.pressed.len()
    }
}

/// Press/release pairing, over the set model the tracker's contracts use:
/// a press of an untracked key is effective; a repeat press before the
/// matching release finds the key tracked, so `on_press` reports false; the
/// matching release restores the state, after which a press is effective
/// again. Together with the contracts of `on_press` and `on_release`, an
/// effective press is reported exactly once per matched press/release pair.
pub proof fn lemma_press_once_per_pair(s: Set<u32>, key: u32)
    requires
        !s.contains(key),
    ensures
        s.insert(key).contains(key),
        s.insert(key).remove(key) == s,
        !s.insert(key).remove(key).contains(key),
{
    assert(s.insert(key).remove(key) =~= s);
}

/// A release with no outstanding effective press reports false (that is the
/// `on_release` contract: the key is not in the set) and leaves the tracked
/// set unchanged.
pub proof fn lemma_spurious_release_changes_nothing(s: Set<u32>, key: u32)
    requires
        !s.contains(key),
    ensures
        s.remove(key) == s,
{
    assert(s.remove(key) =~= s);
}

} // verus!
