use fiddler_crab::handler_state::{HandlerState, StateCell};

#[test]
fn cell_starts_idle() {
    let cell = StateCell::new();
    assert_eq!(cell.load(), HandlerState::Idle);
}

#[test]
fn compare_and_set_swaps_when_expected_value_is_held() {
    let mut cell = StateCell::new();
    assert!(cell.compare_and_set(HandlerState::Idle, HandlerState::Busy));
    assert_eq!(cell.load(), HandlerState::Busy);
    assert!(cell.compare_and_set(HandlerState::Busy, HandlerState::Failed));
    assert_eq!(cell.load(), HandlerState::Failed);
    assert!(cell.compare_and_set(HandlerState::Failed, HandlerState::Idle));
    assert_eq!(cell.load(), HandlerState::Idle);
}

#[test]
fn compare_and_set_leaves_cell_when_another_value_is_held() {
    let mut cell = StateCell::new();
    assert!(cell.compare_and_set(HandlerState::Idle, HandlerState::Busy));
    assert!(!cell.compare_and_set(HandlerState::Idle, HandlerState::Busy));
    assert_eq!(cell.load(), HandlerState::Busy);
    assert!(!cell.compare_and_set(HandlerState::Failed, HandlerState::Idle));
    assert_eq!(cell.load(), HandlerState::Busy);
}
