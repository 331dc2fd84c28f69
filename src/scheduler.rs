//! The decisions of the periodic push loop, as a state machine: the loop's
//! driver waits for the timer or the cancellation signal, hands each event to
//! `step`, and performs the action it returns.
use vstd::prelude::*;
use crate::outcome::ExportError;

verus! {

#[derive(Clone, Copy, Debug, PartialEq, Eq, Structural)]
pub enum SchedulerState {
    Running,
    /// Terminal: the loop has ended.
    Cancelled,
}

/// What the driver observed.
#[derive(Clone, Debug, PartialEq, Eq)]
pub enum SchedulerEvent {
    /// The interval timer fired.
    Tick,
    /// The cancellation signal fired.
    Cancel,
    /// The export started by the last `Export` was accepted.
    Pushed,
    /// The export started by the last `Export` failed.
    Failed(ExportError),
}

/// What the driver does next.
#[derive(Clone, Copy, Debug, PartialEq, Eq, Structural)]
pub enum SchedulerAction {
    /// Snapshot, encode, serialize, compress and push.
    Export,
    /// Wait for the next event.
    Wait,
    /// Replace the network client by a new one, then wait.
    RecreateClient,
    /// Leave the loop.
    Exit,
}

pub open spec fn step_model(
    state: SchedulerState,
    event: SchedulerEvent,
) -> (SchedulerState, SchedulerAction) {
    match state {
        SchedulerState::Cancelled => (SchedulerState::Cancelled, SchedulerAction::Exit),
        SchedulerState::Running => match event {
            SchedulerEvent::Tick => (SchedulerState::Running, SchedulerAction::Export),
            SchedulerEvent::Cancel => (SchedulerState::Cancelled, SchedulerAction::Exit),
            SchedulerEvent::Pushed => (SchedulerState::Running, SchedulerAction::Wait),
            SchedulerEvent::Failed(e) => if e.spec_needs_new_client() {
                (SchedulerState::Running, SchedulerAction::RecreateClient)
            } else {
                (SchedulerState::Running, SchedulerAction::Wait)
            },
        },
    }
}

/// The next state and action. A failed export never ends the loop; only a
/// transport failure replaces the client; cancellation is final.
pub fn step(state: SchedulerState, event: &SchedulerEvent) -> (r: (SchedulerState, SchedulerAction))
    ensures
        r == step_model(state, *event),
{
    match state {
        SchedulerState::Cancelled => (SchedulerState::Cancelled, SchedulerAction::Exit),
        SchedulerState::Running => match event {
            SchedulerEvent::Tick => (SchedulerState::Running, SchedulerAction::Export),
            SchedulerEvent::Cancel => (SchedulerState::Cancelled, SchedulerAction::Exit),
            SchedulerEvent::Pushed => (SchedulerState::Running, SchedulerAction::Wait),
            SchedulerEvent::Failed(e) => {
                if e.needs_new_client() {
                    (SchedulerState::Running, SchedulerAction::RecreateClient)
                } else {
                    (SchedulerState::Running, SchedulerAction::Wait)
                }
            },
        },
    }
}

/// The state after the events `evs`, from `s`.
pub open spec fn run_state(s: SchedulerState, evs: Seq<SchedulerEvent>) -> SchedulerState
    decreases evs.len(),
{
    if evs.len() == 0 {
        s
    } else {
        step_model(run_state(s, evs.drop_last()), evs.last()).0
    }
}

/// The actions taken on the events `evs`, from `s`.
pub open spec fn run_actions(s: SchedulerState, evs: Seq<SchedulerEvent>) -> Seq<SchedulerAction>
    decreases evs.len(),
{
    if evs.len() == 0 {
        Seq::empty()
    } else {
        run_actions(s, evs.drop_last()).push(
            step_model(run_state(s, evs.drop_last()), evs.last()).1,
        )
    }
}

/// Once the cancellation signal is seen, the loop exits at once and, whatever
/// comes after, stays cancelled and starts no further export.
pub proof fn lemma_cancel_is_final(evs: Seq<SchedulerEvent>)
    ensures
        step_model(SchedulerState::Running, SchedulerEvent::Cancel) == (
            SchedulerState::Cancelled,
            SchedulerAction::Exit,
        ),
        run_state(SchedulerState::Cancelled, evs) == SchedulerState::Cancelled,
        !run_actions(SchedulerState::Cancelled, evs).contains(SchedulerAction::Export),
    decreases evs.len(),
{
    if evs.len() > 0 {
        lemma_cancel_is_final(evs.drop_last());
        let prev = run_actions(SchedulerState::Cancelled, evs.drop_last());
        let all = run_actions(SchedulerState::Cancelled, evs);
        assert(all == prev.push(SchedulerAction::Exit));
        if all.contains(SchedulerAction::Export) {
            let k = choose|k: int| 0 <= k < all.len() && all[k] == SchedulerAction::Export;
            assert(prev[k] == all[k]);
        }
    }
}

/// A failed export never ends the loop, and a rejection by the backend keeps
/// the client: only a transport failure replaces it.
pub proof fn lemma_failure_keeps_running(e: ExportError)
    ensures
        step_model(SchedulerState::Running, SchedulerEvent::Failed(e)).0
            == SchedulerState::Running,
        (step_model(SchedulerState::Running, SchedulerEvent::Failed(e)).1
            == SchedulerAction::RecreateClient) <==> (e is Push && e->Push_0 is Transport),
{
}

} // verus!
