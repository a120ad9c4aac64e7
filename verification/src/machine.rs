//! Runs of a machine: what a sequence of events makes of a state.
//!
//! The machines of this crate are rules from a state and an event to the next
//! state and an action. What they promise over a whole run is stated over
//! [`drive`].

use vstd::prelude::*;

verus! {

/// The run that `events` drive from `s` under `rule`: the state reached, and
/// the action that answered each event, in order.
pub open spec fn drive<S, E, A>(rule: spec_fn(S, E) -> (S, A), s: S, events: Seq<E>) -> (
    S,
    Seq<A>,
)
    decreases events.len(),
{
    if events.len() == 0 {
        (s, Seq::empty())
    } else {
        let before = drive(rule, s, events.drop_last());
        let last = rule(before.0, events.last());
        (last.0, before.1.push(last.1))
    }
}

/// A run answers each event with one action; its first `n` actions are the
/// run of the first `n` events; and the action after them is the rule's
/// answer to the next event in the state that those `n` events reach.
pub proof fn lemma_drive_prefix<S, E, A>(
    rule: spec_fn(S, E) -> (S, A),
    s: S,
    events: Seq<E>,
    n: int,
)
    requires
        0 <= n <= events.len(),
    ensures
        drive(rule, s, events).1.len() == events.len(),
        drive(rule, s, events).1.take(n) == drive(rule, s, events.take(n)).1,
        n < events.len() ==> drive(rule, s, events).1[n] == rule(
            drive(rule, s, events.take(n)).0,
            events[n],
        ).1,
    decreases events.len(),
{
    if events.len() == 0 {
        assert(events.take(n) =~= events);
        assert(drive(rule, s, events).1.take(n) =~= drive(rule, s, events).1);
    } else if n == events.len() {
        lemma_drive_prefix(rule, s, events.drop_last(), n - 1);
        assert(events.take(n) =~= events);
        assert(drive(rule, s, events).1.take(n) =~= drive(rule, s, events).1);
    } else {
        lemma_drive_prefix(rule, s, events.drop_last(), n);
        assert(events.drop_last().take(n) =~= events.take(n));
        assert(drive(rule, s, events).1.take(n) =~= drive(rule, s, events.drop_last()).1.take(
            n,
        ));
        if n == events.len() - 1 {
            assert(events.take(n) =~= events.drop_last());
        } else {
            assert(events.drop_last()[n] == events[n]);
        }
    }
}

} // verus!
