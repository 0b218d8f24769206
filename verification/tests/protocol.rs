use process_ownership::debug_text::int_text_of;
use process_ownership::debug_text::quoted;
use process_ownership::debug_text::struct_text_of;
use process_ownership::identity::NativeProcessIdentity;
use process_ownership::protocol::CommandExecutionOwnershipEvidenceNotification;
use process_ownership::protocol::CommandExecutionTerminateOwnedCompletedNotification;
use process_ownership::protocol::CommandExecutionTerminateOwnedParams;
use process_ownership::protocol::CommandExecutionTerminateOwnedStatusParams;
use process_ownership::protocol::CommandExecutionTerminateOwnedStatusResponse;
use process_ownership::protocol::TerminateOwnedOperationState;
use process_ownership::protocol::TerminateOwnedOutcome;
use process_ownership::protocol::TerminateOwnedParams;
use process_ownership::protocol::TerminateOwnedTreeContainmentMode;
use process_ownership::token::ProcessOwnershipToken;

fn expected_identity() -> NativeProcessIdentity {
    NativeProcessIdentity {
        os_pid: 42,
        creation_time: Some(1234),
        executable_identity: Some("private-executable-marker".to_string()),
        parent_pid: Some(7),
        parent_creation_time: Some(5678),
        platform: "test".to_string(),
    }
}

fn termination_params() -> TerminateOwnedParams {
    TerminateOwnedParams {
        process_id: "42".into(),
        ownership_token: ProcessOwnershipToken::from_opaque("private-token-marker".to_string()),
        expected_identity: expected_identity(),
    }
}

fn completion() -> CommandExecutionTerminateOwnedCompletedNotification {
    CommandExecutionTerminateOwnedCompletedNotification {
        operation_id: "operation-1".to_string(),
        thread_id: "thread-1".to_string(),
        turn_id: "turn-1".to_string(),
        item_id: "item-1".to_string(),
        process_identity: expected_identity(),
        root_exit_confirmed: false,
        tree_containment_mode: TerminateOwnedTreeContainmentMode::Unknown,
        tree_exit_confirmed: false,
        stdout_closed: false,
        stderr_closed: false,
        drain_complete: false,
        drain_reason: Some("native_a_unconfirmed".to_string()),
        output_truncated: false,
        exit_code: None,
        exit_reason: None,
        tool_finalized: false,
        completed_at: 123,
    }
}

#[test]
fn ownership_evidence_debug_text_redacts_termination() {
    let notification = CommandExecutionOwnershipEvidenceNotification {
        thread_id: "thread-1".to_string(),
        turn_id: "turn-1".to_string(),
        item_id: "item-1".to_string(),
        termination: termination_params(),
    };
    let debug = notification.debug_text();
    assert_eq!(
        debug,
        "CommandExecutionOwnershipEvidenceNotification { thread_id: \"thread-1\", turn_id: \"turn-1\", item_id: \"item-1\", termination: \"[REDACTED]\" }"
    );
    assert!(!debug.contains("private-token-marker"));
    assert!(!debug.contains("private-executable-marker"));
}

#[test]
fn terminate_owned_params_debug_text_redacts_termination() {
    let params = CommandExecutionTerminateOwnedParams {
        thread_id: "thread-1".to_string(),
        turn_id: "turn-1".to_string(),
        item_id: "item-1".to_string(),
        termination: termination_params(),
        operation_id: None,
    };
    let debug = params.debug_text();
    assert_eq!(
        debug,
        "CommandExecutionTerminateOwnedParams { thread_id: \"thread-1\", turn_id: \"turn-1\", item_id: \"item-1\", termination: \"[REDACTED]\" }"
    );
    assert!(!debug.contains("private-token-marker"));
    assert!(!debug.contains("private-executable-marker"));
}

#[test]
fn status_params_debug_text_redacts_identity() {
    let params = CommandExecutionTerminateOwnedStatusParams {
        operation_id: "operation-1".to_string(),
        thread_id: "thread-1".to_string(),
        turn_id: "turn-1".to_string(),
        item_id: "item-1".to_string(),
        process_identity: expected_identity(),
    };
    let debug = params.debug_text();
    assert_eq!(
        debug,
        "CommandExecutionTerminateOwnedStatusParams { operation_id: \"operation-1\", thread_id: \"thread-1\", turn_id: \"turn-1\", item_id: \"item-1\", process_identity: \"[REDACTED]\" }"
    );
    assert!(!debug.contains("private-executable-marker"));
}

#[test]
fn native_a_completion_never_claims_exit_or_drain_and_redacts_identity() {
    let completion = completion();
    assert!(!completion.root_exit_confirmed);
    assert!(!completion.tree_exit_confirmed);
    assert!(!completion.drain_complete);
    assert!(!completion.tool_finalized);
    let debug = completion.debug_text();
    assert_eq!(
        debug,
        "CommandExecutionTerminateOwnedCompletedNotification { operation_id: \"operation-1\", thread_id: \"thread-1\", turn_id: \"turn-1\", item_id: \"item-1\", process_identity: \"[REDACTED]\", root_exit_confirmed: false, tree_exit_confirmed: false, drain_complete: false, tool_finalized: false }"
    );
    assert!(!debug.contains("private-executable-marker"));
}

#[test]
fn status_response_debug_text_shows_redacted_completion() {
    let response = CommandExecutionTerminateOwnedStatusResponse {
        state: TerminateOwnedOperationState::Terminal,
        operation_id: "operation-1".to_string(),
        created_at: Some(-5),
        accepted_at: None,
        initial_outcome: Some(TerminateOwnedOutcome::Terminated),
        completion: Some(completion()),
    };
    let debug = response.debug_text();
    assert_eq!(
        debug,
        format!(
            "CommandExecutionTerminateOwnedStatusResponse {{ state: Terminal, operation_id: \"operation-1\", created_at: Some(-5), accepted_at: None, initial_outcome: Some(Terminated), completion: Some({}) }}",
            completion().debug_text()
        )
    );
    assert!(!debug.contains("private-executable-marker"));
}

#[test]
fn debug_helpers_render_like_std() {
    assert_eq!(quoted("a\"b\n"), format!("{:?}", "a\"b\n"));
    assert_eq!(quoted("plain"), "\"plain\"");
    assert_eq!(int_text_of(0), "0");
    assert_eq!(int_text_of(1234567), "1234567");
    assert_eq!(int_text_of(-42), "-42");
    assert_eq!(int_text_of(i64::MIN), i64::MIN.to_string());
    assert_eq!(int_text_of(i64::MAX), i64::MAX.to_string());
    assert_eq!(struct_text_of("Empty", &Vec::new()), "Empty");
    assert_eq!(
        struct_text_of("Pair", &vec![("a".to_string(), "1".to_string()), ("b".to_string(), "2".to_string())]),
        "Pair { a: 1, b: 2 }"
    );
    assert_eq!(TerminateOwnedOutcome::IdentityMismatch.debug_text(), "IdentityMismatch");
    assert_eq!(TerminateOwnedOperationState::InProgress.debug_text(), "InProgress");
}
