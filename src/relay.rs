//! The decisions of one connection's relay: which backend to dial, when the
//! two copy directions have finished, and what outcome to report.
//!
//! The caller performs each action (dialling, copying bytes, reporting) and
//! hands back what happened as an event; `step` says what to do next.
use crate::config::BackendServer;
use crate::load_balancer::{LoadBalancer, pick_post};
use vstd::prelude::*;

verus! {

/// How a connection ended.
#[derive(Clone, Copy, Debug, PartialEq, Eq, Structural)]
pub enum Outcome {
    Success,
    Failure,
}

/// One of the two byte-copy directions of a relay.
#[derive(Clone, Copy, Debug, PartialEq, Eq, Structural)]
pub enum Direction {
    ClientToBackend,
    BackendToClient,
}

/// Where a connection stands. Once the backend connection is open, both
/// copy directions start at once, so an open connection is `Relaying`.
#[derive(Clone, Debug)]
pub enum RelayState {
    Accepted,
    BackendSelected,
    Relaying { client_to_backend_done: bool, backend_to_client_done: bool },
    Completed(Outcome),
}

/// What happened since the last step.
#[derive(Clone, Debug)]
pub enum RelayEvent {
    BackendChosen(String),
    NoBackend,
    DialSucceeded,
    DialFailed,
    CopyFinished(Direction),
    CopyFailed(Direction),
}

/// What the caller has to do next.
#[derive(Clone, Debug)]
pub enum RelayAction {
    Dial(String),
    StartCopying,
    Wait,
    Report(Outcome),
    Ignore,
}

/// The status code that an outcome is reported under.
pub open spec fn status_code_of(outcome: Outcome) -> u16 {
    match outcome {
        Outcome::Success => 200,
        Outcome::Failure => 500,
    }
}

/// The status code that an outcome is reported under: 200 for success,
/// 500 for failure.
pub fn status_code(outcome: Outcome) -> (r: u16)
    ensures
        r == status_code_of(outcome),
{
    match outcome {
        Outcome::Success => 200,
        Outcome::Failure => 500,
    }
}

/// Whether an outcome adds one to the count of completed requests: only a
/// successful relay does.
pub fn counts_as_completed(outcome: Outcome) -> (r: bool)
    ensures
        r == (outcome == Outcome::Success),
{
    match outcome {
        Outcome::Success => true,
        Outcome::Failure => false,
    }
}

/// Asks the load balancer for a backend and turns the answer into the
/// event that starts a relay.
pub fn choose_backend(lb: &mut LoadBalancer, client_ip: &str) -> (r: RelayEvent)
    ensures
        exists|picked: Option<&BackendServer>|
            {
                &&& #[trigger] pick_post(old(lb)@, client_ip@, picked, final(lb)@)
                &&& match picked {
                    Some(backend) => r == RelayEvent::BackendChosen(backend.address),
                    None => r is NoBackend,
                }
            },
{
    let picked = lb.get_server(client_ip);
    match picked {
        Some(backend) => RelayEvent::BackendChosen(backend.address.clone()),
        None => RelayEvent::NoBackend,
    }
}

/// What one step does: in `state`, on `event`, the relay moves to `next` and
/// asks for `action`. An event that does not fit the state changes nothing.
pub open spec fn step_post(
    state: RelayState,
    event: RelayEvent,
    next: RelayState,
    action: RelayAction,
) -> bool {
    &&& state is Accepted ==> match event {
        RelayEvent::BackendChosen(address) => next is BackendSelected && action == RelayAction::Dial(
            address,
        ),
        RelayEvent::NoBackend => next == RelayState::Completed(Outcome::Failure) && action
            == RelayAction::Report(Outcome::Failure),
        _ => next == state && action is Ignore,
    }
    &&& state is BackendSelected ==> match event {
        RelayEvent::DialSucceeded => next == (RelayState::Relaying {
            client_to_backend_done: false,
            backend_to_client_done: false,
        }) && action is StartCopying,
        RelayEvent::DialFailed => next == RelayState::Completed(Outcome::Failure) && action
            == RelayAction::Report(Outcome::Failure),
        _ => next == state && action is Ignore,
    }
    &&& state is Relaying ==> match event {
        RelayEvent::CopyFailed(_) => next == RelayState::Completed(Outcome::Failure) && action
            == RelayAction::Report(Outcome::Failure),
        RelayEvent::CopyFinished(d) => {
            let c2b = state->client_to_backend_done || d == Direction::ClientToBackend;
            let b2c = state->backend_to_client_done || d == Direction::BackendToClient;
            if c2b && b2c {
                next == RelayState::Completed(Outcome::Success) && action == RelayAction::Report(
                    Outcome::Success,
                )
            } else {
                next == (RelayState::Relaying {
                    client_to_backend_done: c2b,
                    backend_to_client_done: b2c,
                }) && action is Wait
            }
        },
        _ => next == state && action is Ignore,
    }
    &&& state is Completed ==> next == state && action is Ignore
}

/// Advances a relay by one event.
pub fn step(state: RelayState, event: RelayEvent) -> (r: (RelayState, RelayAction))
    ensures
        step_post(state, event, r.0, r.1),
{
    match state {
        RelayState::Accepted => match event {
            RelayEvent::BackendChosen(address) => (
                RelayState::BackendSelected,
                RelayAction::Dial(address),
            ),
            RelayEvent::NoBackend => (
                RelayState::Completed(Outcome::Failure),
                RelayAction::Report(Outcome::Failure),
            ),
            _ => (state, RelayAction::Ignore),
        },
        RelayState::BackendSelected => match event {
            RelayEvent::DialSucceeded => (
                RelayState::Relaying { client_to_backend_done: false, backend_to_client_done: false },
                RelayAction::StartCopying,
            ),
            RelayEvent::DialFailed => (
                RelayState::Completed(Outcome::Failure),
                RelayAction::Report(Outcome::Failure),
            ),
            _ => (state, RelayAction::Ignore),
        },
        RelayState::Relaying { client_to_backend_done, backend_to_client_done } => match event {
            RelayEvent::CopyFailed(_) => (
                RelayState::Completed(Outcome::Failure),
                RelayAction::Report(Outcome::Failure),
            ),
            RelayEvent::CopyFinished(d) => {
                let c2b = client_to_backend_done || d == Direction::ClientToBackend;
                let b2c = backend_to_client_done || d == Direction::BackendToClient;
                if c2b && b2c {
                    (RelayState::Completed(Outcome::Success), RelayAction::Report(Outcome::Success))
                } else {
                    (
                        RelayState::Relaying {
                            client_to_backend_done: c2b,
                            backend_to_client_done: b2c,
                        },
                        RelayAction::Wait,
                    )
                }
            },
            _ => (state, RelayAction::Ignore),
        },
        RelayState::Completed(_) => (state, RelayAction::Ignore),
    }
}

/// How many of `actions` report an outcome.
pub open spec fn report_count(actions: Seq<RelayAction>) -> nat
    decreases actions.len(),
{
    if actions.len() == 0 {
        0
    } else {
        report_count(actions.drop_last()) + (if actions.last() is Report {
            1nat
        } else {
            0nat
        })
    }
}

/// A run of steps from a fresh connection: `events[k]` takes `states[k]`
/// to `states[k + 1]` and asks for `actions[k]`.
pub open spec fn is_run(
    states: Seq<RelayState>,
    events: Seq<RelayEvent>,
    actions: Seq<RelayAction>,
) -> bool {
    &&& states.len() == events.len() + 1
    &&& actions.len() == events.len()
    &&& states[0] is Accepted
    &&& forall|k: int|
        0 <= k < events.len() ==> step_post(states[k], events[k], states[k + 1], actions[k])
}

proof fn lemma_report_prefix(
    states: Seq<RelayState>,
    events: Seq<RelayEvent>,
    actions: Seq<RelayAction>,
    k: int,
)
    requires
        is_run(states, events, actions),
        0 <= k <= events.len(),
    ensures
        report_count(actions.subrange(0, k)) == (if states[k] is Completed {
            1nat
        } else {
            0nat
        }),
    decreases k,
{
    if k > 0 {
        lemma_report_prefix(states, events, actions, k - 1);
        assert(actions.subrange(0, k).drop_last() =~= actions.subrange(0, k - 1));
        assert(step_post(states[k - 1], events[k - 1], states[k], actions[k - 1]));
    }
}

/// One report per connection: along any run of steps from a fresh
/// connection, the outcome is reported exactly once if the relay has
/// completed, and not at all before.
pub proof fn lemma_single_report(
    states: Seq<RelayState>,
    events: Seq<RelayEvent>,
    actions: Seq<RelayAction>,
)
    requires
        is_run(states, events, actions),
    ensures
        report_count(actions) == (if states.last() is Completed {
            1nat
        } else {
            0nat
        }),
        report_count(actions) <= 1,
{
    lemma_report_prefix(states, events, actions, events.len() as int);
    assert(actions.subrange(0, events.len() as int) =~= actions);
}

} // verus!
