//! The session driver: feeds a stream of raw keyboard events through the
//! translator, serializes every note action, and stops at the first exit.
//!
//! This is the composition of the whole engine. The host's event loop can
//! deliver events one at a time to a `Translator` and encode the actions
//! itself; `run` states and proves what that composition sends for any
//! whole event stream.

use crate::codec;
use crate::translate::Action;
use crate::translate::KeyEvent;
use crate::translate::SemanticKey;
use crate::translate::TransState;
use crate::translate::Translator;
use crate::translate::action_note_wf;
use crate::translate::init_state;
use crate::translate::lemma_step_preserves_wf;
use crate::translate::spec_actions;
use crate::translate::spec_step;
use crate::translate::state_wf;
use vstd::prelude::*;

verus! {

/// The views of a sequence of concrete frames.
pub open spec fn views_of(frames: Seq<Vec<u8>>) -> Seq<Seq<u8>> {
    frames.map_values(|f: Vec<u8>| f@)
}

/// The wire frames a stream of actions produces, in order: one frame per
/// note action, nothing for the rest.
pub open spec fn frames_for(acts: Seq<Action>, channel: u8) -> Seq<Seq<u8>>
    decreases acts.len(),
{
    if acts.len() == 0 {
        Seq::empty()
    } else {
        let rest = frames_for(acts.drop_first(), channel);
        match codec::spec_wire_frame(acts.first(), channel) {
            Some(f) => seq![f] + rest,
            None => rest,
        }
    }
}

/// Everything a session sends from state `s` on: the frames of each
/// event's actions in delivery order, stopping — with no further output —
/// at the first event whose actions carry the exit.
pub open spec fn spec_session(s: TransState, channel: u8, events: Seq<KeyEvent>) -> Seq<Seq<u8>>
    decreases events.len(),
{
    if events.len() == 0 {
        Seq::empty()
    } else {
        let acts = spec_actions(s, events.first());
        if acts.contains(Action::Exit) {
            Seq::empty()
        } else {
            frames_for(acts, channel) + spec_session(
                spec_step(s, events.first()),
                channel,
                events.drop_first(),
            )
        }
    }
}

/// Appending an action appends its frame, if it has one.
proof fn lemma_frames_for_snoc(acts: Seq<Action>, a: Action, channel: u8)
    ensures
        frames_for(acts.push(a), channel) == frames_for(acts, channel) + (match codec::spec_wire_frame(
            a,
            channel,
        ) {
            Some(f) => seq![f],
            None => Seq::<Seq<u8>>::empty(),
        }),
    decreases acts.len(),
{
    let tail = match codec::spec_wire_frame(a, channel) {
        Some(f) => seq![f],
        None => Seq::<Seq<u8>>::empty(),
    };
    if acts.len() == 0 {
        assert(acts.push(a).drop_first() =~= Seq::<Action>::empty());
        assert(acts.push(a).first() == a);
        assert(frames_for(acts.push(a).drop_first(), channel) == Seq::<Seq<u8>>::empty());
        assert(frames_for(acts, channel) == Seq::<Seq<u8>>::empty());
        match codec::spec_wire_frame(a, channel) {
            Some(f) => {
                assert(frames_for(acts.push(a), channel) == seq![f] + Seq::<Seq<u8>>::empty());
                assert(seq![f] + Seq::<Seq<u8>>::empty() =~= Seq::<Seq<u8>>::empty() + seq![f]);
            }
            None => {
                assert(Seq::<Seq<u8>>::empty() + tail =~= tail);
            }
        }
    } else {
        lemma_frames_for_snoc(acts.drop_first(), a, channel);
        assert(acts.push(a).drop_first() =~= acts.drop_first().push(a));
        assert(acts.push(a).first() == acts.first());
        match codec::spec_wire_frame(acts.first(), channel) {
            Some(f) => {
                assert(seq![f] + (frames_for(acts.drop_first(), channel) + tail) =~= (seq![f]
                    + frames_for(acts.drop_first(), channel)) + tail);
            }
            None => {}
        }
    }
}

/// Whether the action stream asks the session to end.
fn has_exit(acts: &Vec<Action>) -> (r: bool)
    ensures
        r == acts@.contains(Action::Exit),
{
    let mut i: usize = 0;
    while i < acts.len()
        invariant
            i <= acts@.len(),
            forall|j: int| 0 <= j < i ==> acts@[j] != Action::Exit,
        decreases acts@.len() - i,
    {
        if matches!(acts[i], Action::Exit) {
            assert(acts@[i as int] == Action::Exit);
            return true;
        }
        i += 1;
    }
    false
}

/// Runs one whole session: starting from the initial state, translates the
/// events in delivery order, serializes every note action under the fixed
/// velocity convention (note-on full, note-off zero), and stops at the
/// first exit. Returns the wire frames in send order.
pub fn run(channel: u8, events: &Vec<KeyEvent>) -> (frames: Vec<Vec<u8>>)
    requires
        1 <= channel <= 16,
    ensures
        views_of(frames@) == spec_session(init_state(), channel, events@),
{
    let mut translator = Translator::new();
    let mut frames: Vec<Vec<u8>> = Vec::new();
    let mut i: usize = 0;
    proof {
        assert(events@.skip(0) =~= events@);
        assert(views_of(frames@) =~= Seq::<Seq<u8>>::empty());
        assert(Seq::<Seq<u8>>::empty() + spec_session(translator@, channel, events@)
            =~= spec_session(translator@, channel, events@));
    }
    while i < events.len()
        invariant
            1 <= channel <= 16,
            translator.wf(),
            state_wf(translator@),
            i <= events@.len(),
            views_of(frames@) + spec_session(translator@, channel, events@.skip(i as int))
                == spec_session(init_state(), channel, events@),
        decreases events@.len() - i,
    {
        let ev = events[i];
        let ghost pre = translator@;
        let ghost pre_frames = frames@;
        let acts = translator.handle_event(ev);
        proof {
            lemma_step_preserves_wf(pre, ev);
            assert(events@.skip(i as int).first() == events@[i as int]);
            assert(events@.skip(i as int).drop_first() =~= events@.skip(i as int + 1));
        }
        if has_exit(&acts) {
            proof {
                assert(spec_session(pre, channel, events@.skip(i as int)) == Seq::<Seq<
                    u8,
                >>::empty());
                assert(views_of(frames@) =~= views_of(frames@) + Seq::<Seq<u8>>::empty());
            }
            return frames;
        }
        let mut j: usize = 0;
        proof {
            assert(acts@.take(0) =~= Seq::<Action>::empty());
            assert(views_of(frames@) =~= views_of(pre_frames) + frames_for(
                acts@.take(0),
                channel,
            ));
        }
        while j < acts.len()
            invariant
                1 <= channel <= 16,
                j <= acts@.len(),
                forall|k: int| 0 <= k < acts@.len() ==> action_note_wf(#[trigger] acts@[k]),
                views_of(frames@) == views_of(pre_frames) + frames_for(
                    acts@.take(j as int),
                    channel,
                ),
            decreases acts@.len() - j,
        {
            let a = acts[j];
            proof {
                assert(action_note_wf(acts@[j as int]));
                assert(acts@.take(j as int + 1) =~= acts@.take(j as int).push(a));
                lemma_frames_for_snoc(acts@.take(j as int), a, channel);
            }
            let ghost cur = frames@;
            match a {
                Action::NoteOn(_) => {
                    let f = codec::encode(&a, channel, codec::NOTE_ON_VELOCITY).unwrap();
                    frames.push(f);
                    proof {
                        assert(f@ == codec::spec_wire_frame(a, channel).unwrap());
                        assert(views_of(cur.push(f)) =~= views_of(cur) + seq![f@]);
                        assert((views_of(pre_frames) + frames_for(acts@.take(j as int), channel))
                            + seq![f@] =~= views_of(pre_frames) + (frames_for(
                            acts@.take(j as int),
                            channel,
                        ) + seq![f@]));
                        assert(views_of(frames@) =~= views_of(pre_frames) + frames_for(
                            acts@.take(j as int + 1),
                            channel,
                        ));
                    }
                }
                Action::NoteOff(_) => {
                    let f = codec::encode(&a, channel, codec::NOTE_OFF_VELOCITY).unwrap();
                    frames.push(f);
                    proof {
                        assert(f@ == codec::spec_wire_frame(a, channel).unwrap());
                        assert(views_of(cur.push(f)) =~= views_of(cur) + seq![f@]);
                        assert((views_of(pre_frames) + frames_for(acts@.take(j as int), channel))
                            + seq![f@] =~= views_of(pre_frames) + (frames_for(
                            acts@.take(j as int),
                            channel,
                        ) + seq![f@]));
                        assert(views_of(frames@) =~= views_of(pre_frames) + frames_for(
                            acts@.take(j as int + 1),
                            channel,
                        ));
                    }
                }
                _ => {
                    proof {
                        assert(frames_for(acts@.take(j as int + 1), channel) =~= frames_for(
                            acts@.take(j as int),
                            channel,
                        ));
                        assert(views_of(frames@) =~= views_of(pre_frames) + frames_for(
                            acts@.take(j as int + 1),
                            channel,
                        ));
                    }
                }
            }
            j += 1;
        }
        proof {
            assert(acts@.take(acts@.len() as int) =~= acts@);
            assert(spec_session(pre, channel, events@.skip(i as int)) == frames_for(
                acts@,
                channel,
            ) + spec_session(translator@, channel, events@.skip(i as int + 1)));
            assert((views_of(pre_frames) + frames_for(acts@, channel)) + spec_session(
                translator@,
                channel,
                events@.skip(i as int + 1),
            ) =~= views_of(pre_frames) + (frames_for(acts@, channel) + spec_session(
                translator@,
                channel,
                events@.skip(i as int + 1),
            )));
        }
        i += 1;
    }
    proof {
        assert(events@.skip(events@.len() as int) =~= Seq::<KeyEvent>::empty());
        assert(views_of(frames@) =~= views_of(frames@) + Seq::<Seq<u8>>::empty());
    }
    frames
}

/// Escape always exits: whatever the state — keys still held, pedal down,
/// notes deferred — an escape event translates to the exit action alone,
/// and the session produces no further wire message from that point on.
pub proof fn lemma_escape_stops_output(s: TransState, channel: u8, events: Seq<KeyEvent>)
    requires
        events.len() > 0,
        events.first().label == Some(SemanticKey::Escape),
    ensures
        spec_actions(s, events.first()) == seq![Action::Exit],
        spec_session(s, channel, events) == Seq::<Seq<u8>>::empty(),
{
    assert(seq![Action::Exit][0] == Action::Exit);
    assert(spec_actions(s, events.first()).contains(Action::Exit));
}

} // verus!
