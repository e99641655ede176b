use proxee::config::BackendServer;
use proxee::load_balancer::{LoadBalancer, LoadBalancingMethod};
use proxee::relay::{
    choose_backend, counts_as_completed, status_code, step, Direction, Outcome, RelayAction,
    RelayEvent, RelayState,
};

fn reports(actions: &[RelayAction]) -> Vec<Outcome> {
    actions
        .iter()
        .filter_map(|a| match a {
            RelayAction::Report(o) => Some(*o),
            _ => None,
        })
        .collect()
}

fn run(events: Vec<RelayEvent>) -> (RelayState, Vec<RelayAction>) {
    let mut state = RelayState::Accepted;
    let mut actions = Vec::new();
    for e in events {
        let (next, action) = step(state, e);
        state = next;
        actions.push(action);
    }
    (state, actions)
}

#[test]
fn relay_succeeds_once_both_directions_drain() {
    let (state, actions) = run(vec![
        RelayEvent::BackendChosen("10.0.0.1:9000".to_string()),
        RelayEvent::DialSucceeded,
        RelayEvent::CopyFinished(Direction::BackendToClient),
        RelayEvent::CopyFinished(Direction::ClientToBackend),
    ]);
    assert!(matches!(&actions[0], RelayAction::Dial(a) if a == "10.0.0.1:9000"));
    assert!(matches!(actions[1], RelayAction::StartCopying));
    assert!(matches!(actions[2], RelayAction::Wait));
    assert!(matches!(state, RelayState::Completed(Outcome::Success)));
    let outcomes = reports(&actions);
    assert_eq!(outcomes, vec![Outcome::Success]);
    let completed: usize = outcomes.iter().filter(|o| counts_as_completed(**o)).count();
    assert_eq!(completed, 1);
    assert_eq!(status_code(outcomes[0]), 200);
}

#[test]
fn relay_unreachable_backend_reports_one_failure() {
    let (state, actions) = run(vec![
        RelayEvent::BackendChosen("127.0.0.1:1".to_string()),
        RelayEvent::DialFailed,
        RelayEvent::CopyFinished(Direction::ClientToBackend),
        RelayEvent::DialFailed,
    ]);
    assert!(matches!(state, RelayState::Completed(Outcome::Failure)));
    let outcomes = reports(&actions);
    assert_eq!(outcomes, vec![Outcome::Failure]);
    assert_eq!(status_code(outcomes[0]), 500);
    assert!(!counts_as_completed(outcomes[0]));
    assert!(matches!(actions[2], RelayAction::Ignore));
}

#[test]
fn relay_without_backend_reports_failure() {
    let mut lb = LoadBalancer::new(LoadBalancingMethod::IPHash, Vec::new(), 0);
    let event = choose_backend(&mut lb, "203.0.113.5");
    assert!(matches!(event, RelayEvent::NoBackend));
    let (state, action) = step(RelayState::Accepted, event);
    assert!(matches!(state, RelayState::Completed(Outcome::Failure)));
    assert!(matches!(action, RelayAction::Report(Outcome::Failure)));
}

#[test]
fn relay_copy_error_dominates() {
    let (state, actions) = run(vec![
        RelayEvent::BackendChosen("b:1".to_string()),
        RelayEvent::DialSucceeded,
        RelayEvent::CopyFinished(Direction::ClientToBackend),
        RelayEvent::CopyFailed(Direction::BackendToClient),
        RelayEvent::CopyFinished(Direction::BackendToClient),
    ]);
    assert!(matches!(state, RelayState::Completed(Outcome::Failure)));
    assert_eq!(reports(&actions), vec![Outcome::Failure]);
}

#[test]
fn relay_same_direction_twice_keeps_waiting() {
    let (state, actions) = run(vec![
        RelayEvent::BackendChosen("b:1".to_string()),
        RelayEvent::DialSucceeded,
        RelayEvent::CopyFinished(Direction::ClientToBackend),
        RelayEvent::CopyFinished(Direction::ClientToBackend),
    ]);
    assert!(matches!(
        state,
        RelayState::Relaying { client_to_backend_done: true, backend_to_client_done: false }
    ));
    assert!(reports(&actions).is_empty());
}

#[test]
fn relay_events_out_of_order_are_ignored() {
    let (state, action) = step(RelayState::Accepted, RelayEvent::DialSucceeded);
    assert!(matches!(state, RelayState::Accepted));
    assert!(matches!(action, RelayAction::Ignore));
}

#[test]
fn choose_backend_follows_round_robin() {
    let servers = vec![
        BackendServer { address: "10.0.0.1:9000".to_string() },
        BackendServer { address: "10.0.0.2:9000".to_string() },
    ];
    let mut lb = LoadBalancer::new(LoadBalancingMethod::RoundRobin, servers, 0);
    let expected = ["10.0.0.1:9000", "10.0.0.2:9000", "10.0.0.1:9000"];
    for want in expected {
        match choose_backend(&mut lb, "1.2.3.4") {
            RelayEvent::BackendChosen(a) => assert_eq!(a, want),
            other => panic!("unexpected {:?}", other),
        }
    }
}
