use order_intake::error::OrderError;
use order_intake::order::OrderStatus;

#[test]
fn created_may_only_become_cancelled() {
    assert!(OrderStatus::Created.can_transition_to(OrderStatus::Cancelled));
    assert!(!OrderStatus::Created.can_transition_to(OrderStatus::Created));
}

#[test]
fn cancelled_is_terminal() {
    assert!(!OrderStatus::Cancelled.can_transition_to(OrderStatus::Created));
    assert!(!OrderStatus::Cancelled.can_transition_to(OrderStatus::Cancelled));
}

#[test]
fn each_cause_has_its_message() {
    assert_eq!(OrderError::NotFound.message(), "order not found");
    assert_eq!(OrderError::BackendFailure.message(), "backend failure");
    assert_eq!(OrderError::Unimplemented.message(), "not implemented");
}
