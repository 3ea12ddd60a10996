//! One sizing run as a sequence of steps. The run asks for outside work (a
//! listing, the operator's confirmation, one creation, one deletion) by an
//! action, and is told how the work went by an event.

use crate::plan::{plan_for, reconcile, Plan};
use vstd::prelude::*;

verus! {

/// Where a run stands.
#[derive(Clone, Copy, Debug, PartialEq, Eq, Structural)]
pub enum Stage {
    /// The listing of the fleet is awaited.
    Listing,
    /// The plan is made; the operator's confirmation is awaited.
    Confirming(Plan),
    /// A creation is under way; `remaining` creations are owed, this one
    /// included.
    Creating { remaining: usize },
    /// The deletion of the managed instance at `next` is under way; the
    /// first `count` managed instances are to go.
    Deleting { next: usize, count: usize },
    /// The fleet has the wanted size, as far as this run could see.
    Finished,
    /// Outside work failed, or an event came that the stage does not expect.
    Aborted,
}

/// How a piece of outside work went.
#[derive(Clone, Copy, Debug, PartialEq, Eq, Structural)]
pub enum Event {
    /// The listing came back, and this many of its instances are managed.
    Listed(usize),
    /// The operator confirmed the plan.
    Confirmed,
    /// The creation or deletion that was asked for has been done.
    Completed,
    /// The work failed.
    Failed,
}

/// The outside work that a run asks for next.
#[derive(Clone, Copy, Debug, PartialEq, Eq, Structural)]
pub enum Action {
    /// List the fleet.
    List,
    /// Show the plan to the operator and wait for the confirmation.
    Confirm(Plan),
    /// Create one instance.
    Create,
    /// Delete the managed instance at this position of the listing.
    Delete(usize),
    /// Nothing more: the run is over.
    Stop,
}

/// Whether an action changes the fleet.
pub open spec fn is_mutation(action: Action) -> bool {
    action is Create || action is Delete
}

/// The stage and the action that follow an event. Nothing changes the fleet
/// before the operator has confirmed; a failure ends the run at once.
pub open spec fn transition(desired: int, stage: Stage, event: Event) -> (Stage, Action) {
    match (stage, event) {
        (Stage::Listing, Event::Listed(managed)) => match plan_for(desired, managed as int) {
            Plan::NoOp => (Stage::Finished, Action::Stop),
            plan => (Stage::Confirming(plan), Action::Confirm(plan)),
        },
        (Stage::Confirming(Plan::ScaleUp(count)), Event::Confirmed) => if count > 0 {
            (Stage::Creating { remaining: count }, Action::Create)
        } else {
            (Stage::Finished, Action::Stop)
        },
        (Stage::Confirming(Plan::ScaleDown(count)), Event::Confirmed) => if count > 0 {
            (Stage::Deleting { next: 0, count }, Action::Delete(0))
        } else {
            (Stage::Finished, Action::Stop)
        },
        (Stage::Confirming(Plan::NoOp), Event::Confirmed) => (Stage::Finished, Action::Stop),
        (Stage::Creating { remaining }, Event::Completed) => if remaining > 1 {
            (Stage::Creating { remaining: (remaining - 1) as usize }, Action::Create)
        } else {
            (Stage::Finished, Action::Stop)
        },
        (Stage::Deleting { next, count }, Event::Completed) => if next + 1 < count {
            (Stage::Deleting { next: (next + 1) as usize, count }, Action::Delete((next + 1) as usize))
        } else {
            (Stage::Finished, Action::Stop)
        },
        (Stage::Finished, _) => (Stage::Finished, Action::Stop),
        _ => (Stage::Aborted, Action::Stop),
    }
}

/// A run from `stage` through `events`: the stage that it reaches, and the
/// actions that it asks for, one for each event.
pub open spec fn run(desired: int, stage: Stage, events: Seq<Event>) -> (Stage, Seq<Action>)
    decreases events.len(),
{
    if events.len() == 0 {
        (stage, Seq::empty())
    } else {
        let (reached, actions) = run(desired, stage, events.drop_last());
        let (next, action) = transition(desired, reached, events.last());
        (next, actions.push(action))
    }
}

/// What holds of every run that begins with the listing.
spec fn run_invariant(desired: int, events: Seq<Event>) -> bool {
    let (stage, actions) = run(desired, Stage::Listing, events);
    &&& actions.len() == events.len()
    &&& stage is Listing <==> events.len() == 0
    &&& stage is Creating || stage is Deleting ==> exists|j: int|
        0 <= j < events.len() && events[j] == Event::Confirmed
    &&& stage matches Stage::Deleting { next, count } ==> next < count && (events[0] matches Event::Listed(
        managed,
    ) && count == managed - desired)
    &&& stage matches Stage::Confirming(plan) ==> events[0] matches Event::Listed(managed) && plan
        == plan_for(desired, managed as int)
    &&& (exists|j: int| 0 <= j < events.len() && events[j] == Event::Failed) ==> stage is Aborted
        || stage is Finished
    &&& forall|k: int| 0 <= k < actions.len() && is_mutation(#[trigger] actions[k]) ==> exists|j: int|
        0 <= j <= k && events[j] == Event::Confirmed
    &&& forall|k: int, j: int|
        0 <= j <= k < actions.len() && #[trigger] events[j] == Event::Failed ==> #[trigger] actions[k]
            == Action::Stop
    &&& forall|k: int|
        0 <= k < actions.len() ==> (#[trigger] actions[k] matches Action::Delete(at) ==> (
        events[0] matches Event::Listed(managed) && at < managed - desired))
}

proof fn lemma_run_invariant(desired: int, events: Seq<Event>)
    requires
        0 <= desired <= u16::MAX,
    ensures
        run_invariant(desired, events),
    decreases events.len(),
{
    if events.len() > 0 {
        let earlier = events.drop_last();
        lemma_run_invariant(desired, earlier);
        let last = events.len() - 1;
        if exists|j: int| 0 <= j < events.len() && events[j] == Event::Failed {
            let j = choose|j: int| 0 <= j < events.len() && events[j] == Event::Failed;
            if j < last {
                assert(earlier[j] == Event::Failed);
            }
        }
        assert forall|k: int, j: int|
            0 <= j <= k < events.len() && #[trigger] events[j] == Event::Failed implies #[trigger] run(
            desired,
            Stage::Listing,
            events,
        ).1[k] == Action::Stop by {
            if j < last {
                assert(earlier[j] == Event::Failed);
            }
        }
    }
}

/// Nothing changes the fleet before the operator has confirmed: where a run
/// asks for a creation or a deletion, a confirmation is among the events up to
/// that step.
pub proof fn lemma_confirmation_precedes_mutation(desired: int, events: Seq<Event>, k: int)
    requires
        0 <= desired <= u16::MAX,
        0 <= k < events.len(),
        is_mutation(run(desired, Stage::Listing, events).1[k]),
    ensures
        exists|j: int| 0 <= j <= k && events[j] == Event::Confirmed,
{
    lemma_run_invariant(desired, events);
}

/// A failure ends the run: from the step of the failure on, the run asks for
/// nothing more.
pub proof fn lemma_failure_stops_the_run(desired: int, events: Seq<Event>, j: int, k: int)
    requires
        0 <= desired <= u16::MAX,
        0 <= j <= k < events.len(),
        events[j] == Event::Failed,
    ensures
        run(desired, Stage::Listing, events).1[k] == Action::Stop,
{
    lemma_run_invariant(desired, events);
}

/// A deletion stays within the surplus: where a run asks for the deletion at
/// a position, the run began with a listing, and the position is below the
/// number by which the managed fleet exceeds the wanted count.
pub proof fn lemma_deletions_stay_within_surplus(desired: int, events: Seq<Event>, k: int)
    requires
        0 <= desired <= u16::MAX,
        0 <= k < events.len(),
        run(desired, Stage::Listing, events).1[k] is Delete,
    ensures
        events[0] matches Event::Listed(managed) && run(desired, Stage::Listing, events).1[k]->Delete_0
            < managed - desired,
{
    lemma_run_invariant(desired, events);
}

/// The events of a run in which all outside work succeeds: the listing with
/// `managed` managed instances, the confirmation, and `steps` requests done.
pub open spec fn smooth_events(managed: usize, steps: int) -> Seq<Event> {
    seq![Event::Listed(managed), Event::Confirmed] + Seq::new(
        steps as nat,
        |i: int| Event::Completed,
    )
}

proof fn lemma_smooth_prefix(desired: int, managed: usize, steps: int)
    requires
        0 <= desired <= u16::MAX,
        desired != managed,
        0 <= steps,
        desired > managed ==> steps < desired - managed,
        desired < managed ==> steps < managed - desired,
    ensures
        ({
            let (stage, actions) = run(desired, Stage::Listing, smooth_events(managed, steps));
            &&& actions.len() == steps + 2
            &&& actions[0] == Action::Confirm(plan_for(desired, managed as int))
            &&& desired > managed ==> stage == Stage::Creating {
                remaining: (desired - managed - steps) as usize,
            } && forall|i: int| 1 <= i <= steps + 1 ==> actions[i] == Action::Create
            &&& desired < managed ==> stage == Stage::Deleting {
                next: steps as usize,
                count: (managed - desired) as usize,
            } && forall|i: int| 1 <= i <= steps + 1 ==> actions[i] == Action::Delete((i - 1) as usize)
        }),
    decreases steps,
{
    let events = smooth_events(managed, steps);
    if steps == 0 {
        let one = seq![Event::Listed(managed)];
        assert(events.drop_last() =~= one);
        assert(run(desired, Stage::Listing, one.drop_last()).0 == Stage::Listing);
        assert(run(desired, Stage::Listing, one) == (
            Stage::Confirming(plan_for(desired, managed as int)),
            Seq::<Action>::empty().push(Action::Confirm(plan_for(desired, managed as int))),
        ));
    } else {
        lemma_smooth_prefix(desired, managed, steps - 1);
        assert(events.drop_last() =~= smooth_events(managed, steps - 1));
    }
}

/// A run in which all outside work succeeds, with more instances wanted than
/// are managed: the plan is shown, then one creation is asked for after the
/// other, as many as are missing, and the run finishes.
pub proof fn lemma_scale_up_run(desired: int, managed: usize)
    requires
        0 <= desired <= u16::MAX,
        desired > managed,
    ensures
        ({
            let missing = desired - managed;
            let (stage, actions) = run(desired, Stage::Listing, smooth_events(managed, missing));
            &&& stage == Stage::Finished
            &&& actions.len() == missing + 2
            &&& actions[0] == Action::Confirm(Plan::ScaleUp(missing as usize))
            &&& forall|i: int| 1 <= i <= missing ==> actions[i] == Action::Create
            &&& actions[missing + 1] == Action::Stop
        }),
{
    let missing = desired - managed;
    lemma_smooth_prefix(desired, managed, missing - 1);
    assert(smooth_events(managed, missing).drop_last() =~= smooth_events(managed, missing - 1));
}

/// A run in which all outside work succeeds, with more instances managed than
/// are wanted: the plan is shown, then the deletion of the managed instance at
/// each of the leading positions is asked for, in listing order, as many as
/// are in surplus, and the run finishes.
pub proof fn lemma_scale_down_run(desired: int, managed: usize)
    requires
        0 <= desired <= u16::MAX,
        desired < managed,
    ensures
        ({
            let surplus = managed - desired;
            let (stage, actions) = run(desired, Stage::Listing, smooth_events(managed, surplus));
            &&& stage == Stage::Finished
            &&& actions.len() == surplus + 2
            &&& actions[0] == Action::Confirm(Plan::ScaleDown(surplus as usize))
            &&& forall|i: int| 1 <= i <= surplus ==> actions[i] == Action::Delete((i - 1) as usize)
            &&& actions[surplus + 1] == Action::Stop
        }),
{
    let surplus = managed - desired;
    lemma_smooth_prefix(desired, managed, surplus - 1);
    assert(smooth_events(managed, surplus).drop_last() =~= smooth_events(managed, surplus - 1));
}

/// A run that finds as many instances managed as are wanted is over with the
/// listing: it asks for nothing.
pub proof fn lemma_level_run(desired: int, managed: usize)
    requires
        desired == managed,
    ensures
        run(desired, Stage::Listing, seq![Event::Listed(managed)]) == (
            Stage::Finished,
            seq![Action::Stop],
        ),
{
    let one = seq![Event::Listed(managed)];
    assert(run(desired, Stage::Listing, one.drop_last()).0 == Stage::Listing);
}

/// Begins a run: the fleet is to be listed.
pub fn start() -> (begun: (Stage, Action))
    ensures
        begun == (Stage::Listing, Action::List),
{
    (Stage::Listing, Action::List)
}

/// Takes a run one step further: from the stage and the event to the next
/// stage and the work to do next.
pub fn step(desired: u16, stage: Stage, event: Event) -> (next: (Stage, Action))
    ensures
        next == transition(desired as int, stage, event),
{
    match (stage, event) {
        (Stage::Listing, Event::Listed(managed)) => match reconcile(desired, managed) {
            Plan::NoOp => (Stage::Finished, Action::Stop),
            plan => (Stage::Confirming(plan), Action::Confirm(plan)),
        },
        (Stage::Confirming(Plan::ScaleUp(count)), Event::Confirmed) => if count > 0 {
            (Stage::Creating { remaining: count }, Action::Create)
        } else {
            (Stage::Finished, Action::Stop)
        },
        (Stage::Confirming(Plan::ScaleDown(count)), Event::Confirmed) => if count > 0 {
            (Stage::Deleting { next: 0, count }, Action::Delete(0))
        } else {
            (Stage::Finished, Action::Stop)
        },
        (Stage::Confirming(Plan::NoOp), Event::Confirmed) => (Stage::Finished, Action::Stop),
        (Stage::Creating { remaining }, Event::Completed) => if remaining > 1 {
            (Stage::Creating { remaining: remaining - 1 }, Action::Create)
        } else {
            (Stage::Finished, Action::Stop)
        },
        (Stage::Deleting { next, count }, Event::Completed) => if next < count && next + 1 < count {
            (Stage::Deleting { next: next + 1, count }, Action::Delete(next + 1))
        } else {
            (Stage::Finished, Action::Stop)
        },
        (Stage::Finished, _) => (Stage::Finished, Action::Stop),
        _ => (Stage::Aborted, Action::Stop),
    }
}

} // verus!
