use process_ownership::identity::NativeProcessIdentity;
use process_ownership::protocol::CommandExecutionTerminateOwnedCompletedNotification;
use process_ownership::protocol::TerminateOwnedOperationState;
use process_ownership::protocol::TerminateOwnedOutcome;
use process_ownership::protocol::TerminateOwnedParams;
use process_ownership::protocol::TerminateOwnedTreeContainmentMode;
use process_ownership::registry::valid_termination_operation_id;
use process_ownership::registry::ReserveResult;
use process_ownership::registry::TerminateOwnedCorrelation;
use process_ownership::registry::TerminateOwnedOperationRegistry;
use process_ownership::token::ProcessOwnershipToken;

#[test]
fn operation_id_validation_accepts_opaque_ascii_identifier() {
    assert!(valid_termination_operation_id(
        "018f7f82-9b31-7cde-a456-426614174000"
    ));
}

#[test]
fn operation_id_validation_rejects_missing_malformed_and_oversized_values() {
    assert!(!valid_termination_operation_id(""));
    assert!(!valid_termination_operation_id("contains whitespace"));
    assert!(!valid_termination_operation_id(&"x".repeat(129)));
}

#[test]
fn operation_id_validation_boundaries() {
    assert!(valid_termination_operation_id(&"x".repeat(128)));
    assert!(valid_termination_operation_id("A_z-9"));
    assert!(!valid_termination_operation_id("op.1"));
    assert!(!valid_termination_operation_id("op/1"));
    assert!(!valid_termination_operation_id("é"));
}

fn identity(pid: u32) -> NativeProcessIdentity {
    NativeProcessIdentity {
        os_pid: pid,
        creation_time: Some(10),
        executable_identity: Some("test-executable".to_string()),
        parent_pid: Some(1),
        parent_creation_time: Some(2),
        platform: "test".to_string(),
    }
}

fn correlation(item_id: &str, pid: u32) -> TerminateOwnedCorrelation {
    TerminateOwnedCorrelation {
        thread_id: "thread-1".to_string(),
        turn_id: "turn-1".to_string(),
        item_id: item_id.to_string(),
        termination: TerminateOwnedParams {
            process_id: pid.to_string().into(),
            ownership_token: ProcessOwnershipToken::from_opaque(format!("token-{pid}")),
            expected_identity: identity(pid),
        },
    }
}

fn completion(
    operation_id: &str,
    item_id: &str,
    pid: u32,
    at: i64,
) -> CommandExecutionTerminateOwnedCompletedNotification {
    CommandExecutionTerminateOwnedCompletedNotification {
        operation_id: operation_id.to_string(),
        thread_id: "thread-1".to_string(),
        turn_id: "turn-1".to_string(),
        item_id: item_id.to_string(),
        process_identity: identity(pid),
        root_exit_confirmed: false,
        tree_containment_mode: TerminateOwnedTreeContainmentMode::Unknown,
        tree_exit_confirmed: false,
        stdout_closed: false,
        stderr_closed: false,
        drain_complete: false,
        drain_reason: Some("native_a_unconfirmed".to_string()),
        output_truncated: false,
        exit_code: None,
        exit_reason: None,
        tool_finalized: false,
        completed_at: at,
    }
}

#[test]
fn reserve_then_accept_is_visible_as_in_progress() {
    let mut registry = TerminateOwnedOperationRegistry::with_limits(4, 100);
    let correlation = correlation("item-1", 42);
    assert!(matches!(
        registry.reserve("op-1", correlation.clone(), 10),
        ReserveResult::Reserved
    ));
    registry.accept("op-1", TerminateOwnedOutcome::Terminated, 11);
    let status = registry.status("op-1", &correlation, 12).unwrap();
    assert_eq!(status.state, TerminateOwnedOperationState::InProgress);
    assert_eq!(status.accepted_at, Some(11));
}

#[test]
fn duplicate_exact_correlation_is_idempotent_but_different_correlation_conflicts() {
    let mut registry = TerminateOwnedOperationRegistry::with_limits(4, 100);
    let first = correlation("item-1", 42);
    assert!(matches!(
        registry.reserve("op-1", first.clone(), 10),
        ReserveResult::Reserved
    ));
    assert!(matches!(
        registry.reserve("op-1", first, 11),
        ReserveResult::Duplicate(_)
    ));
    assert!(matches!(
        registry.reserve("op-1", correlation("item-2", 43), 11),
        ReserveResult::Conflict
    ));
}

#[test]
fn refusal_removes_reserved_operation() {
    let mut registry = TerminateOwnedOperationRegistry::with_limits(4, 100);
    let correlation = correlation("item-1", 42);
    assert!(matches!(
        registry.reserve("op-1", correlation.clone(), 10),
        ReserveResult::Reserved
    ));
    registry.refuse("op-1");
    assert!(registry.status("op-1", &correlation, 11).is_none());
}

#[test]
fn terminal_record_is_queryable_and_expires_with_injected_time() {
    let mut registry = TerminateOwnedOperationRegistry::with_limits(4, 10);
    let correlation = correlation("item-1", 42);
    assert!(matches!(
        registry.reserve("op-1", correlation.clone(), 10),
        ReserveResult::Reserved
    ));
    registry.complete("op-1", completion("op-1", "item-1", 42, 20));
    assert_eq!(
        registry.status("op-1", &correlation, 29).unwrap().state,
        TerminateOwnedOperationState::Terminal
    );
    assert_eq!(
        registry.status("op-1", &correlation, 30).unwrap().state,
        TerminateOwnedOperationState::Expired
    );
}

#[test]
fn capacity_evicts_terminal_records_only() {
    let mut registry = TerminateOwnedOperationRegistry::with_limits(2, 100);
    let first = correlation("item-1", 41);
    let second = correlation("item-2", 42);
    let third = correlation("item-3", 43);
    assert!(matches!(
        registry.reserve("op-1", first.clone(), 1),
        ReserveResult::Reserved
    ));
    registry.complete("op-1", completion("op-1", "item-1", 41, 2));
    assert!(matches!(
        registry.reserve("op-2", second.clone(), 2),
        ReserveResult::Reserved
    ));
    assert!(matches!(
        registry.reserve("op-3", third, 3),
        ReserveResult::Reserved
    ));
    assert_eq!(
        registry.status("op-1", &first, 3).unwrap().state,
        TerminateOwnedOperationState::Expired
    );
    assert_eq!(
        registry.status("op-2", &second, 3).unwrap().state,
        TerminateOwnedOperationState::InProgress
    );
}

#[test]
fn all_in_flight_registry_rejects_new_operation_without_eviction() {
    let mut registry = TerminateOwnedOperationRegistry::with_limits(1, 100);
    let first = correlation("item-1", 41);
    assert!(matches!(
        registry.reserve("op-1", first.clone(), 1),
        ReserveResult::Reserved
    ));
    assert!(matches!(
        registry.reserve("op-2", correlation("item-2", 42), 2),
        ReserveResult::Full
    ));
    assert_eq!(
        registry.status("op-1", &first, 2).unwrap().state,
        TerminateOwnedOperationState::InProgress
    );
}

#[test]
fn independent_operations_do_not_contaminate_each_other() {
    let mut registry = TerminateOwnedOperationRegistry::with_limits(4, 100);
    let first = correlation("item-1", 41);
    let second = correlation("item-2", 42);
    registry.reserve("op-1", first.clone(), 1);
    registry.reserve("op-2", second.clone(), 1);
    registry.complete("op-1", completion("op-1", "item-1", 41, 2));
    assert_eq!(
        registry.status("op-1", &first, 2).unwrap().state,
        TerminateOwnedOperationState::Terminal
    );
    assert_eq!(
        registry.status("op-2", &second, 2).unwrap().state,
        TerminateOwnedOperationState::InProgress
    );
}

#[test]
fn new_registry_reports_old_operation_as_unknown() {
    let mut old = TerminateOwnedOperationRegistry::with_limits(4, 100);
    let correlation = correlation("item-1", 42);
    old.reserve("op-1", correlation.clone(), 1);
    let mut restarted = TerminateOwnedOperationRegistry::with_limits(4, 100);
    assert!(restarted.status("op-1", &correlation, 2).is_none());
}

#[test]
fn default_registry_has_documented_limits() {
    let mut registry = TerminateOwnedOperationRegistry::new();
    let correlation = correlation("item-1", 42);
    assert!(matches!(
        registry.reserve("op-1", correlation.clone(), 0),
        ReserveResult::Reserved
    ));
    registry.complete("op-1", completion("op-1", "item-1", 42, 0));
    assert_eq!(
        registry.status("op-1", &correlation, 899).unwrap().state,
        TerminateOwnedOperationState::Terminal
    );
    assert_eq!(
        registry.status("op-1", &correlation, 900).unwrap().state,
        TerminateOwnedOperationState::Expired
    );
}

#[test]
fn duplicate_reports_current_status_fields() {
    let mut registry = TerminateOwnedOperationRegistry::with_limits(4, 100);
    let first = correlation("item-1", 42);
    registry.reserve("op-1", first.clone(), 10);
    registry.accept("op-1", TerminateOwnedOutcome::AlreadyExited, 11);
    registry.complete("op-1", completion("op-1", "item-1", 42, 12));
    let ReserveResult::Duplicate(status) = registry.reserve("op-1", first.clone(), 13) else {
        panic!("expected a duplicate");
    };
    assert_eq!(status.state, TerminateOwnedOperationState::Terminal);
    assert_eq!(status.operation_id, "op-1");
    assert_eq!(status.created_at, Some(10));
    assert_eq!(status.accepted_at, Some(11));
    assert_eq!(status.initial_outcome, Some(TerminateOwnedOutcome::AlreadyExited));
    assert_eq!(status.completion.as_ref().map(|c| c.completed_at), Some(12));
    let queried = registry.status("op-1", &first, 13).unwrap();
    assert_eq!(queried.created_at, status.created_at);
    assert_eq!(queried.accepted_at, status.accepted_at);
}

#[test]
fn status_with_other_correlation_is_none() {
    let mut registry = TerminateOwnedOperationRegistry::with_limits(4, 100);
    registry.reserve("op-1", correlation("item-1", 42), 10);
    assert!(registry
        .status("op-1", &correlation("item-2", 42), 11)
        .is_none());
    assert!(registry
        .status("op-2", &correlation("item-1", 42), 11)
        .is_none());
}

#[test]
fn expired_operation_id_conflicts_on_reuse() {
    let mut registry = TerminateOwnedOperationRegistry::with_limits(4, 10);
    let first = correlation("item-1", 42);
    registry.reserve("op-1", first.clone(), 0);
    registry.complete("op-1", completion("op-1", "item-1", 42, 0));
    assert!(matches!(
        registry.reserve("op-1", first.clone(), 20),
        ReserveResult::Conflict
    ));
    let status = registry.status("op-1", &first, 20).unwrap();
    assert_eq!(status.state, TerminateOwnedOperationState::Expired);
    assert_eq!(status.created_at, None);
    assert!(status.completion.is_none());
    assert!(registry
        .status("op-1", &correlation("item-9", 42), 20)
        .is_none());
}

#[test]
fn expired_memory_keeps_only_the_most_recent_capacity_operations() {
    let mut registry = TerminateOwnedOperationRegistry::with_limits(1, 0);
    let first = correlation("item-1", 41);
    let second = correlation("item-2", 42);
    registry.reserve("op-1", first.clone(), 0);
    registry.complete("op-1", completion("op-1", "item-1", 41, 0));
    registry.reserve("op-2", second.clone(), 0);
    registry.complete("op-2", completion("op-2", "item-2", 42, 0));
    assert_eq!(
        registry.status("op-2", &second, 0).unwrap().state,
        TerminateOwnedOperationState::Expired
    );
    assert!(registry.status("op-1", &first, 0).is_none());
    assert!(matches!(
        registry.reserve("op-1", first, 0),
        ReserveResult::Reserved
    ));
}

#[test]
fn complete_keeps_first_completion_and_reports_unknown_operations() {
    let mut registry = TerminateOwnedOperationRegistry::with_limits(4, 100);
    let first = correlation("item-1", 42);
    assert!(!registry.complete("op-1", completion("op-1", "item-1", 42, 5)));
    registry.reserve("op-1", first.clone(), 1);
    assert!(registry.complete("op-1", completion("op-1", "item-1", 42, 5)));
    assert!(registry.complete("op-1", completion("op-1", "item-1", 42, 7)));
    let status = registry.status("op-1", &first, 6).unwrap();
    assert_eq!(status.completion.unwrap().completed_at, 5);
}

#[test]
fn accept_of_unknown_operation_changes_nothing() {
    let mut registry = TerminateOwnedOperationRegistry::with_limits(4, 100);
    registry.accept("op-1", TerminateOwnedOutcome::Terminated, 3);
    assert!(registry.status("op-1", &correlation("item-1", 42), 4).is_none());
}

#[test]
fn status_by_identity_matches_thread_turn_item_and_identity() {
    let mut registry = TerminateOwnedOperationRegistry::with_limits(4, 10);
    registry.reserve("op-1", correlation("item-1", 42), 0);
    let found = registry
        .status_by_identity("op-1", "thread-1", "turn-1", "item-1", &identity(42), 1)
        .unwrap();
    assert_eq!(found.state, TerminateOwnedOperationState::InProgress);
    assert!(registry
        .status_by_identity("op-1", "thread-1", "turn-1", "item-1", &identity(43), 1)
        .is_none());
    assert!(registry
        .status_by_identity("op-1", "thread-2", "turn-1", "item-1", &identity(42), 1)
        .is_none());
    registry.complete("op-1", completion("op-1", "item-1", 42, 1));
    let expired = registry
        .status_by_identity("op-1", "thread-1", "turn-1", "item-1", &identity(42), 11)
        .unwrap();
    assert_eq!(expired.state, TerminateOwnedOperationState::Expired);
}

#[test]
fn zero_capacity_registry_is_always_full() {
    let mut registry = TerminateOwnedOperationRegistry::with_limits(0, 10);
    assert!(matches!(
        registry.reserve("op-1", correlation("item-1", 42), 0),
        ReserveResult::Full
    ));
}

#[test]
fn registry_correlation_compares_executables_as_text() {
    let mut registry = TerminateOwnedOperationRegistry::with_limits(4, 100);
    registry.reserve("op-1", correlation("item-1", 42), 0);
    let mut other = correlation("item-1", 42);
    other.termination.expected_identity.executable_identity = Some("test-executable/".to_string());
    assert!(matches!(registry.reserve("op-1", other, 1), ReserveResult::Conflict));
}
