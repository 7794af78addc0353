//! The transition detector: from two consecutive snapshots of the keyboard
//! to the press and release events between them.
//!
//! Each event carries the modifiers held in the earlier snapshot, for
//! presses and releases alike. Modifier keys themselves produce no event.

use vstd::prelude::*;
use device_query::Keycode;
use crate::event::{GlobalSodKatEvent, GlobalSodKatEventView, SodKatModifier, SodKatState};
use crate::event::holds;
use crate::key::{filter_key, is_modifier, key_modifier, modifier_of, same_key};

verus! {

/// The modifiers that the keys of a snapshot stand for: each once, in the
/// order in which its first key occurs.
pub open spec fn held_modifiers(keys: Seq<Keycode>) -> Seq<SodKatModifier>
    decreases keys.len(),
{
    if keys.len() == 0 {
        Seq::empty()
    } else {
        let rest = held_modifiers(keys.drop_last());
        match key_modifier(keys.last()) {
            Some(m) => if rest.contains(m) {
                rest
            } else {
                rest.push(m)
            },
            None => rest,
        }
    }
}

/// The keys of `after` that are not in `before` and are no modifier keys,
/// in the order of `after`.
pub open spec fn fresh_keys(before: Seq<Keycode>, after: Seq<Keycode>) -> Seq<Keycode>
    decreases after.len(),
{
    if after.len() == 0 {
        Seq::empty()
    } else {
        let rest = fresh_keys(before, after.drop_last());
        let key = after.last();
        if !before.contains(key) && !is_modifier(key) {
            rest.push(key)
        } else {
            rest
        }
    }
}

/// One event per key of `keys`, all with the same state and modifiers.
pub open spec fn events_for(
    keys: Seq<Keycode>,
    state: SodKatState,
    modifier: Seq<SodKatModifier>,
) -> Seq<GlobalSodKatEventView> {
    Seq::new(
        keys.len(),
        |i: int| GlobalSodKatEventView { keycode: keys[i], state, modifier },
    )
}

/// The events between the snapshot `last` and the snapshot `now`: presses
/// in the order of `now`, then releases in the order of `last`, all with the
/// modifiers held in `last`.
pub open spec fn transitions(last: Seq<Keycode>, now: Seq<Keycode>) -> Seq<GlobalSodKatEventView> {
    events_for(fresh_keys(last, now), SodKatState::Press, held_modifiers(last)) + events_for(
        fresh_keys(now, last),
        SodKatState::Release,
        held_modifiers(last),
    )
}

/// The views of a list of events.
pub open spec fn event_views(events: Seq<GlobalSodKatEvent>) -> Seq<GlobalSodKatEventView> {
    events.map_values(|e: GlobalSodKatEvent| e@)
}

/// The held modifiers list nothing twice, and list a modifier exactly when
/// one of its keys is in the snapshot.
pub proof fn lemma_held_modifiers(keys: Seq<Keycode>)
    ensures
        held_modifiers(keys).no_duplicates(),
        forall|m: SodKatModifier|
            held_modifiers(keys).contains(m) <==> exists|i: int|
                0 <= i < keys.len() && key_modifier(#[trigger] keys[i]) == Some(m),
    decreases keys.len(),
{
    if keys.len() > 0 {
        let front = keys.drop_last();
        let rest = held_modifiers(front);
        lemma_held_modifiers(front);
        assert forall|m: SodKatModifier| held_modifiers(keys).contains(m) implies exists|i: int|
            0 <= i < keys.len() && key_modifier(#[trigger] keys[i]) == Some(m) by {
            if rest.contains(m) {
                let i = choose|i: int|
                    0 <= i < front.len() && key_modifier(#[trigger] front[i]) == Some(m);
                assert(keys[i] == front[i]);
            } else {
                assert(key_modifier(keys.last()) == Some(m));
            }
        }
        assert forall|m: SodKatModifier|
            (exists|i: int| 0 <= i < keys.len() && key_modifier(#[trigger] keys[i]) == Some(m))
            implies held_modifiers(keys).contains(m) by {
            let i = choose|i: int| 0 <= i < keys.len() && key_modifier(#[trigger] keys[i]) == Some(m);
            if i < front.len() {
                assert(front[i] == keys[i]);
                assert(rest.contains(m));
                let j = choose|j: int| 0 <= j < rest.len() && rest[j] == m;
                assert(held_modifiers(keys)[j] == m);
            } else if !rest.contains(m) {
                assert(held_modifiers(keys)[rest.len() as int] == m);
            }
        }
    }
}

/// A fresh key is in `after`, not in `before`, and no modifier key.
pub proof fn lemma_fresh_keys(before: Seq<Keycode>, after: Seq<Keycode>)
    ensures
        forall|i: int|
            0 <= i < fresh_keys(before, after).len() ==> {
                let key = #[trigger] fresh_keys(before, after)[i];
                after.contains(key) && !before.contains(key) && !is_modifier(key)
            },
    decreases after.len(),
{
    if after.len() > 0 {
        let front = after.drop_last();
        lemma_fresh_keys(before, front);
        assert forall|i: int| 0 <= i < fresh_keys(before, after).len() implies {
            let key = #[trigger] fresh_keys(before, after)[i];
            after.contains(key) && !before.contains(key) && !is_modifier(key)
        } by {
            let key = fresh_keys(before, after)[i];
            if i < fresh_keys(before, front).len() {
                let j = choose|j: int| 0 <= j < front.len() && front[j] == key;
                assert(after[j] == key);
            }
        }
    }
}

/// Every event between two snapshots is well formed: its key is no
/// modifier key and its modifiers list nothing twice.
pub proof fn lemma_transitions_well_formed(last: Seq<Keycode>, now: Seq<Keycode>)
    ensures
        forall|i: int|
            0 <= i < transitions(last, now).len() ==> (#[trigger] transitions(
                last,
                now,
            )[i]).well_formed(),
{
    lemma_held_modifiers(last);
    lemma_fresh_keys(last, now);
    lemma_fresh_keys(now, last);
}

/// Decides whether a snapshot holds `key`.
pub fn is_down(keys: &Vec<Keycode>, key: &Keycode) -> (r: bool)
    ensures
        r == keys@.contains(*key),
{
    let mut i: usize = 0;
    while i < keys.len()
        invariant
            i <= keys.len(),
            forall|j: int| 0 <= j < i ==> keys@[j] != *key,
        decreases keys.len() - i,
    {
        if same_key(&keys[i], key) {
            return true;
        }
        i += 1;
    }
    false
}

/// The polling side of the engine.
pub struct SodKat {
    delay: u64,
}

impl SodKat {
    /// The time between two polls, in milliseconds.
    pub closed spec fn interval(&self) -> u64 {
        self.delay
    }

    /// A detector that polls every 10 milliseconds.
    pub fn new() -> (r: Self)
        ensures
            r.interval() == 10,
    {
        Self { delay: 10 }
    }

    /// Returns the time between two polls, in milliseconds.
    pub fn delay(&self) -> (r: u64)
        ensures
            r == self.interval(),
    {
        self.delay
    }

    /// Collects the modifiers that the keys of a snapshot stand for.
    pub fn modkeys(keys: &Vec<Keycode>) -> (r: Vec<SodKatModifier>)
        ensures
            r@ == held_modifiers(keys@),
    {
        let mut modifier: Vec<SodKatModifier> = Vec::new();
        let mut i: usize = 0;
        while i < keys.len()
            invariant
                i <= keys.len(),
                modifier@ == held_modifiers(keys@.take(i as int)),
            decreases keys.len() - i,
        {
            assert(keys@.take(i + 1).drop_last() == keys@.take(i as int));
            match modifier_of(&keys[i]) {
                Some(m) => {
                    if !holds(&modifier, m) {
                        modifier.push(m);
                    }
                },
                None => {},
            }
            i += 1;
        }
        assert(keys@.take(keys.len() as int) == keys@);
        modifier
    }

    /// Appends to `out` one event for each key of `after` that is not in
    /// `before` and is no modifier key.
    fn push_events(
        out: &mut Vec<GlobalSodKatEvent>,
        before: &Vec<Keycode>,
        after: &Vec<Keycode>,
        state: SodKatState,
        modifier: &Vec<SodKatModifier>,
    )
        ensures
            event_views(final(out)@) == event_views(old(out)@) + events_for(
                fresh_keys(before@, after@),
                state,
                modifier@,
            ),
    {
        let ghost start = event_views(out@);
        let mut i: usize = 0;
        while i < after.len()
            invariant
                i <= after.len(),
                event_views(out@) == start + events_for(
                    fresh_keys(before@, after@.take(i as int)),
                    state,
                    modifier@,
                ),
            decreases after.len() - i,
        {
            assert(after@.take(i + 1).drop_last() == after@.take(i as int));
            let key: &Keycode = &after[i];
            if !is_down(before, key) {
                match filter_key(key) {
                    Some(k) => {
                        let ghost views = event_views(out@);
                        let event = GlobalSodKatEvent {
                            state,
                            keycode: k,
                            modifier: modifier.clone(),
                        };
                        out.push(event);
                        assert(event_views(out@) == views.push(event@));
                    },
                    None => {},
                }
            }
            i += 1;
        }
        assert(after@.take(after.len() as int) == after@);
    }

    /// The events between two consecutive snapshots: a press for each key
    /// that entered the pressed set, then a release for each key that left
    /// it, modifier keys left out. All carry the modifiers of `last_keys`.
    pub fn transitions(last_keys: &Vec<Keycode>, keys: &Vec<Keycode>) -> (r: Vec<GlobalSodKatEvent>)
        ensures
            event_views(r@) == transitions(last_keys@, keys@),
            forall|i: int| 0 <= i < r.len() ==> (#[trigger] r[i])@.well_formed(),
    {
        let modifier: Vec<SodKatModifier> = SodKat::modkeys(last_keys);
        let mut out: Vec<GlobalSodKatEvent> = Vec::new();
        SodKat::push_events(&mut out, last_keys, keys, SodKatState::Press, &modifier);
        SodKat::push_events(&mut out, keys, last_keys, SodKatState::Release, &modifier);
        proof {
            lemma_transitions_well_formed(last_keys@, keys@);
            assert forall|i: int| 0 <= i < out.len() implies (#[trigger] out[i])@.well_formed() by {
                assert(transitions(last_keys@, keys@)[i].well_formed());
            }
        }
        out
    }

    /// One round of listening: takes the snapshot just polled, returns the
    /// events since the previous one, and keeps the new snapshot in
    /// `last_keys` for the next round.
    pub fn listen(&self, last_keys: &mut Vec<Keycode>, keys: Vec<Keycode>) -> (r: Vec<
        GlobalSodKatEvent,
    >)
        ensures
            event_views(r@) == transitions(old(last_keys)@, keys@),
            forall|i: int| 0 <= i < r.len() ==> (#[trigger] r[i])@.well_formed(),
            final(last_keys)@ == keys@,
    {
        let events: Vec<GlobalSodKatEvent> = SodKat::transitions(last_keys, &keys);
        *last_keys = keys;
        events
    }
}

} // verus!
