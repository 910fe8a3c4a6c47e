//! What holds of every sequence of events that a driver may report for one
//! request.

use crate::orchestrator::{advance, Action, EventModel, OutcomeModel, StateModel};
use vstd::prelude::*;

verus! {

/// The state of a request after the driver has reported `events`, in order.
pub open spec fn run(state: StateModel, events: Seq<EventModel>) -> StateModel
    decreases events.len(),
{
    if events.len() == 0 {
        state
    } else {
        advance(run(state, events.drop_last()), events.last()).0
    }
}

/// The action that ends a request: with either, the worker is gone and the
/// outcome is reported.
pub open spec fn concludes(action: Action) -> bool {
    action is KillAndReap || action is Deliver
}

/// How many times the driver was told to end the request while it reported
/// `events`.
pub open spec fn conclusions(state: StateModel, events: Seq<EventModel>) -> nat
    decreases events.len(),
{
    if events.len() == 0 {
        0
    } else {
        let before = run(state, events.drop_last());
        let ended: nat = if concludes(advance(before, events.last()).1) {
            1
        } else {
            0
        };
        conclusions(state, events.drop_last()) + ended
    }
}

/// The header was read before the deadline: the request is past the point at
/// which the deadline can end it.
pub open spec fn committed(state: StateModel) -> bool {
    match state {
        StateModel::Draining { header } => true,
        StateModel::Exiting { frame } => true,
        StateModel::Done { outcome } => !(outcome is Timeout),
        _ => false,
    }
}

/// One step ends the request exactly when it fixes the outcome. The worker is
/// then gone: it was killed and reaped, or, where the outcome is only
/// reported, the wait for its exit had returned.
pub proof fn conclusion_fixes_outcome(state: StateModel, event: EventModel)
    ensures
        concludes(advance(state, event).1) <==> !(state is Done) && advance(state, event).0 is Done,
        advance(state, event).1 is Deliver <==> state is Exiting && event is Exited,
        advance(state, event).1 is Wait ==> state is Draining && advance(state, event).0 is Exiting,
        state is Done ==> advance(state, event) == (state, Action::Nothing),
{
}

/// A timeout is only ever the answer to the deadline passing while the header
/// is awaited.
pub proof fn timeout_only_by_deadline(state: StateModel, event: EventModel)
    requires
        advance(state, event).0 == (StateModel::Done { outcome: OutcomeModel::Timeout }),
        state != (StateModel::Done { outcome: OutcomeModel::Timeout }),
    ensures
        state is AwaitingHeader,
        event is DeadlineElapsed,
{
}

/// Once the header was read in time, no event takes the request back.
pub proof fn commitment_is_kept(state: StateModel, event: EventModel)
    requires
        committed(state),
    ensures
        committed(advance(state, event).0),
{
}

proof fn lemma_run_split(state: StateModel, events: Seq<EventModel>, more: Seq<EventModel>)
    ensures
        run(state, events + more) == run(run(state, events), more),
    decreases more.len(),
{
    if more.len() == 0 {
        assert(events + more =~= events);
    } else {
        lemma_run_split(state, events, more.drop_last());
        assert((events + more).drop_last() =~= events + more.drop_last());
    }
}

proof fn lemma_done_stays(state: StateModel, events: Seq<EventModel>)
    requires
        state is Done,
    ensures
        run(state, events) == state,
        conclusions(state, events) == 0,
    decreases events.len(),
{
    if events.len() > 0 {
        lemma_done_stays(state, events.drop_last());
    }
}

/// The outcome that a request has reached is the outcome it keeps, whatever
/// is reported afterwards. After a timeout, in particular, no success or
/// failure follows.
pub proof fn outcome_is_kept(state: StateModel, events: Seq<EventModel>, more: Seq<EventModel>)
    requires
        run(state, events) is Done,
    ensures
        run(state, events + more) == run(state, events),
{
    lemma_run_split(state, events, more);
    lemma_done_stays(run(state, events), more);
}

/// Over any sequence of events the driver is told to end the request once if
/// the request is done, and never otherwise. So the worker is killed or waited
/// for exactly once, and that before the outcome is reported.
pub proof fn one_conclusion(state: StateModel, events: Seq<EventModel>)
    requires
        !(state is Done),
    ensures
        conclusions(state, events) == if run(state, events) is Done {
            1nat
        } else {
            0nat
        },
    decreases events.len(),
{
    if events.len() > 0 {
        one_conclusion(state, events.drop_last());
        conclusion_fixes_outcome(run(state, events.drop_last()), events.last());
    }
}

/// If the header is read while it is awaited, then at no later point is the
/// outcome a timeout.
pub proof fn header_in_time_excludes_timeout(
    state: StateModel,
    events: Seq<EventModel>,
    at: int,
    later: int,
)
    requires
        0 <= at < later <= events.len(),
        run(state, events.take(at)) is AwaitingHeader,
        events[at] is HeaderRead,
    ensures
        committed(run(state, events.take(later))),
        run(state, events.take(later)) != (StateModel::Done { outcome: OutcomeModel::Timeout }),
    decreases later - at,
{
    let upto = events.take(later);
    assert(upto.drop_last() =~= events.take(later - 1));
    assert(upto.last() == events[later - 1]);
    if later - 1 > at {
        header_in_time_excludes_timeout(state, events, at, later - 1);
        commitment_is_kept(run(state, events.take(later - 1)), events[later - 1]);
    }
}

} // verus!
