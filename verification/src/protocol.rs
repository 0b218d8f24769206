use vstd::prelude::*;

use crate::identity::{opt_text, opt_text_clone, IdentityView, NativeProcessIdentity};
use crate::debug_text::{
    bool_text, bool_text_of, field, field_texts, int_text, int_text_of, option_text,
    option_text_of, quoted, str_debug_text, struct_text, struct_text_of,
};
use crate::token::ProcessOwnershipToken;

verus! {

/// What an owned-termination request concluded about the process.
#[derive(Clone, Copy, Debug, PartialEq, Eq, Structural)]
pub enum TerminateOwnedOutcome {
    Terminated,
    AlreadyExited,
    ProcessNotFound,
    OwnershipMismatch,
    StaleEvidence,
    IdentityMismatch,
    IdentityUnavailable,
    PartialIdentity,
    Unsupported,
}

/// Whether an owned-termination request was taken on or turned away.
#[derive(Clone, Copy, Debug, PartialEq, Eq, Structural)]
pub enum TerminateOwnedAckPhase {
    Accepted,
    Refused,
}

/// Where an owned-termination operation stands, as a status query reports it.
#[derive(Clone, Copy, Debug, PartialEq, Eq, Structural)]
pub enum TerminateOwnedOperationState {
    InProgress,
    Terminal,
    Unknown,
    Expired,
}

/// How the process tree of a terminated process was contained.
#[derive(Clone, Copy, Debug, PartialEq, Eq, Structural)]
pub enum TerminateOwnedTreeContainmentMode {
    JobObjectContained,
    RootOnlyFallback,
    Uncontained,
    Unknown,
}

/// The evidence that a termination request presents: which process, the ownership token
/// handed out when it was spawned, and the identity recorded then.
pub struct TerminateOwnedParams {
    pub process_id: String,
    pub ownership_token: ProcessOwnershipToken,
    pub expected_identity: NativeProcessIdentity,
}

pub struct ParamsView {
    pub process_id: Seq<char>,
    pub ownership_token: Seq<char>,
    pub expected_identity: IdentityView,
}

impl View for TerminateOwnedParams {
    type V = ParamsView;

    open spec fn view(&self) -> ParamsView {
        ParamsView {
            process_id: self.process_id@,
            ownership_token: self.ownership_token@,
            expected_identity: self.expected_identity@,
        }
    }
}

impl Clone for TerminateOwnedParams {
    fn clone(&self) -> (r: Self)
        ensures
            r@ == self@,
    {
        TerminateOwnedParams {
            process_id: self.process_id.clone(),
            ownership_token: self.ownership_token.clone(),
            expected_identity: self.expected_identity.clone(),
        }
    }
}

impl PartialEq for TerminateOwnedParams {
    fn eq(&self, other: &Self) -> (r: bool) {
        self.process_id == other.process_id && self.ownership_token == other.ownership_token
            && self.expected_identity.same_text_as(&other.expected_identity)
    }
}

impl vstd::std_specs::cmp::PartialEqSpecImpl for TerminateOwnedParams {
    open spec fn obeys_eq_spec() -> bool {
        true
    }

    open spec fn eq_spec(&self, other: &Self) -> bool {
        self@ == other@
    }
}

impl Eq for TerminateOwnedParams {

}

/// Sent when a command execution has native ownership evidence to hand out.
#[derive(Clone)]
pub struct CommandExecutionOwnershipEvidenceNotification {
    pub thread_id: String,
    pub turn_id: String,
    pub item_id: String,
    pub termination: TerminateOwnedParams,
}

/// A request to terminate a process that this owner spawned.
#[derive(Clone)]
pub struct CommandExecutionTerminateOwnedParams {
    pub thread_id: String,
    pub turn_id: String,
    pub item_id: String,
    pub termination: TerminateOwnedParams,
    pub operation_id: Option<String>,
}

/// The immediate answer to an owned-termination request.
#[derive(Clone, Debug, PartialEq, Eq)]
pub struct CommandExecutionTerminateOwnedResponse {
    pub outcome: TerminateOwnedOutcome,
    pub operation_id: Option<String>,
    pub phase: Option<TerminateOwnedAckPhase>,
    pub reason: Option<String>,
    pub completion_version: Option<u32>,
}

/// A query for the status of an owned-termination operation.
#[derive(Clone)]
pub struct CommandExecutionTerminateOwnedStatusParams {
    pub operation_id: String,
    pub thread_id: String,
    pub turn_id: String,
    pub item_id: String,
    pub process_identity: NativeProcessIdentity,
}

/// The terminal evidence that an owned-termination operation published.
pub struct CommandExecutionTerminateOwnedCompletedNotification {
    pub operation_id: String,
    pub thread_id: String,
    pub turn_id: String,
    pub item_id: String,
    pub process_identity: NativeProcessIdentity,
    pub root_exit_confirmed: bool,
    pub tree_containment_mode: TerminateOwnedTreeContainmentMode,
    pub tree_exit_confirmed: bool,
    pub stdout_closed: bool,
    pub stderr_closed: bool,
    pub drain_complete: bool,
    pub drain_reason: Option<String>,
    pub output_truncated: bool,
    pub exit_code: Option<i32>,
    pub exit_reason: Option<String>,
    pub tool_finalized: bool,
    pub completed_at: i64,
}

pub struct CompletionView {
    pub operation_id: Seq<char>,
    pub thread_id: Seq<char>,
    pub turn_id: Seq<char>,
    pub item_id: Seq<char>,
    pub process_identity: IdentityView,
    pub root_exit_confirmed: bool,
    pub tree_containment_mode: TerminateOwnedTreeContainmentMode,
    pub tree_exit_confirmed: bool,
    pub stdout_closed: bool,
    pub stderr_closed: bool,
    pub drain_complete: bool,
    pub drain_reason: Option<Seq<char>>,
    pub output_truncated: bool,
    pub exit_code: Option<i32>,
    pub exit_reason: Option<Seq<char>>,
    pub tool_finalized: bool,
    pub completed_at: i64,
}

impl View for CommandExecutionTerminateOwnedCompletedNotification {
    type V = CompletionView;

    open spec fn view(&self) -> CompletionView {
        CompletionView {
            operation_id: self.operation_id@,
            thread_id: self.thread_id@,
            turn_id: self.turn_id@,
            item_id: self.item_id@,
            process_identity: self.process_identity@,
            root_exit_confirmed: self.root_exit_confirmed,
            tree_containment_mode: self.tree_containment_mode,
            tree_exit_confirmed: self.tree_exit_confirmed,
            stdout_closed: self.stdout_closed,
            stderr_closed: self.stderr_closed,
            drain_complete: self.drain_complete,
            drain_reason: opt_text(self.drain_reason),
            output_truncated: self.output_truncated,
            exit_code: self.exit_code,
            exit_reason: opt_text(self.exit_reason),
            tool_finalized: self.tool_finalized,
            completed_at: self.completed_at,
        }
    }
}

impl Clone for CommandExecutionTerminateOwnedCompletedNotification {
    fn clone(&self) -> (r: Self)
        ensures
            r@ == self@,
    {
        CommandExecutionTerminateOwnedCompletedNotification {
            operation_id: self.operation_id.clone(),
            thread_id: self.thread_id.clone(),
            turn_id: self.turn_id.clone(),
            item_id: self.item_id.clone(),
            process_identity: self.process_identity.clone(),
            root_exit_confirmed: self.root_exit_confirmed,
            tree_containment_mode: self.tree_containment_mode,
            tree_exit_confirmed: self.tree_exit_confirmed,
            stdout_closed: self.stdout_closed,
            stderr_closed: self.stderr_closed,
            drain_complete: self.drain_complete,
            drain_reason: opt_text_clone(&self.drain_reason),
            output_truncated: self.output_truncated,
            exit_code: self.exit_code,
            exit_reason: opt_text_clone(&self.exit_reason),
            tool_finalized: self.tool_finalized,
            completed_at: self.completed_at,
        }
    }
}

/// The answer to a status query for an owned-termination operation.
pub struct CommandExecutionTerminateOwnedStatusResponse {
    pub state: TerminateOwnedOperationState,
    pub operation_id: String,
    pub created_at: Option<i64>,
    pub accepted_at: Option<i64>,
    pub initial_outcome: Option<TerminateOwnedOutcome>,
    pub completion: Option<CommandExecutionTerminateOwnedCompletedNotification>,
}

pub struct StatusView {
    pub state: TerminateOwnedOperationState,
    pub operation_id: Seq<char>,
    pub created_at: Option<i64>,
    pub accepted_at: Option<i64>,
    pub initial_outcome: Option<TerminateOwnedOutcome>,
    pub completion: Option<CompletionView>,
}

pub open spec fn opt_completion(c: Option<CommandExecutionTerminateOwnedCompletedNotification>) -> Option<
    CompletionView,
> {
    match c {
        Some(x) => Some(x@),
        None => None,
    }
}

impl View for CommandExecutionTerminateOwnedStatusResponse {
    type V = StatusView;

    open spec fn view(&self) -> StatusView {
        StatusView {
            state: self.state,
            operation_id: self.operation_id@,
            created_at: self.created_at,
            accepted_at: self.accepted_at,
            initial_outcome: self.initial_outcome,
            completion: opt_completion(self.completion),
        }
    }
}

/// The name of an operation state, as `Debug` writes it.
pub open spec fn state_name(s: TerminateOwnedOperationState) -> Seq<char> {
    match s {
        TerminateOwnedOperationState::InProgress => "InProgress"@,
        TerminateOwnedOperationState::Terminal => "Terminal"@,
        TerminateOwnedOperationState::Unknown => "Unknown"@,
        TerminateOwnedOperationState::Expired => "Expired"@,
    }
}

impl TerminateOwnedOperationState {
    pub fn debug_text(&self) -> (r: String)
        ensures
            r@ == state_name(*self),
    {
        match self {
            TerminateOwnedOperationState::InProgress => String::from_str("InProgress"),
            TerminateOwnedOperationState::Terminal => String::from_str("Terminal"),
            TerminateOwnedOperationState::Unknown => String::from_str("Unknown"),
            TerminateOwnedOperationState::Expired => String::from_str("Expired"),
        }
    }
}

/// The name of an outcome, as `Debug` writes it.
pub open spec fn outcome_name(o: TerminateOwnedOutcome) -> Seq<char> {
    match o {
        TerminateOwnedOutcome::Terminated => "Terminated"@,
        TerminateOwnedOutcome::AlreadyExited => "AlreadyExited"@,
        TerminateOwnedOutcome::ProcessNotFound => "ProcessNotFound"@,
        TerminateOwnedOutcome::OwnershipMismatch => "OwnershipMismatch"@,
        TerminateOwnedOutcome::StaleEvidence => "StaleEvidence"@,
        TerminateOwnedOutcome::IdentityMismatch => "IdentityMismatch"@,
        TerminateOwnedOutcome::IdentityUnavailable => "IdentityUnavailable"@,
        TerminateOwnedOutcome::PartialIdentity => "PartialIdentity"@,
        TerminateOwnedOutcome::Unsupported => "Unsupported"@,
    }
}

impl TerminateOwnedOutcome {
    pub fn debug_text(&self) -> (r: String)
        ensures
            r@ == outcome_name(*self),
    {
        match self {
            TerminateOwnedOutcome::Terminated => String::from_str("Terminated"),
            TerminateOwnedOutcome::AlreadyExited => String::from_str("AlreadyExited"),
            TerminateOwnedOutcome::ProcessNotFound => String::from_str("ProcessNotFound"),
            TerminateOwnedOutcome::OwnershipMismatch => String::from_str("OwnershipMismatch"),
            TerminateOwnedOutcome::StaleEvidence => String::from_str("StaleEvidence"),
            TerminateOwnedOutcome::IdentityMismatch => String::from_str("IdentityMismatch"),
            TerminateOwnedOutcome::IdentityUnavailable => String::from_str("IdentityUnavailable"),
            TerminateOwnedOutcome::PartialIdentity => String::from_str("PartialIdentity"),
            TerminateOwnedOutcome::Unsupported => String::from_str("Unsupported"),
        }
    }
}

/// The debug text of an ownership evidence notification: its thread, turn and item, with
/// the termination evidence redacted.
pub open spec fn evidence_debug(thread_id: Seq<char>, turn_id: Seq<char>, item_id: Seq<char>) -> Seq<
    char,
> {
    struct_text(
        "CommandExecutionOwnershipEvidenceNotification"@,
        seq![
            ("thread_id"@, str_debug_text(thread_id)),
            ("turn_id"@, str_debug_text(turn_id)),
            ("item_id"@, str_debug_text(item_id)),
            ("termination"@, str_debug_text("[REDACTED]"@)),
        ],
    )
}

impl CommandExecutionOwnershipEvidenceNotification {
    pub fn debug_text(&self) -> (r: String)
        ensures
            r@ == evidence_debug(self.thread_id@, self.turn_id@, self.item_id@),
    {
        let mut fields: Vec<(String, String)> = Vec::new();
        fields.push(field("thread_id", quoted(self.thread_id.as_str())));
        fields.push(field("turn_id", quoted(self.turn_id.as_str())));
        fields.push(field("item_id", quoted(self.item_id.as_str())));
        fields.push(field("termination", quoted("[REDACTED]")));
        let r = struct_text_of("CommandExecutionOwnershipEvidenceNotification", &fields);
        assert(field_texts(fields@) =~= seq![
            ("thread_id"@, str_debug_text(self.thread_id@)),
            ("turn_id"@, str_debug_text(self.turn_id@)),
            ("item_id"@, str_debug_text(self.item_id@)),
            ("termination"@, str_debug_text("[REDACTED]"@)),
        ]);
        r
    }
}

/// The debug text of an owned-termination request: its thread, turn and item, with the
/// termination evidence redacted.
pub open spec fn terminate_params_debug(
    thread_id: Seq<char>,
    turn_id: Seq<char>,
    item_id: Seq<char>,
) -> Seq<char> {
    struct_text(
        "CommandExecutionTerminateOwnedParams"@,
        seq![
            ("thread_id"@, str_debug_text(thread_id)),
            ("turn_id"@, str_debug_text(turn_id)),
            ("item_id"@, str_debug_text(item_id)),
            ("termination"@, str_debug_text("[REDACTED]"@)),
        ],
    )
}

impl CommandExecutionTerminateOwnedParams {
    pub fn debug_text(&self) -> (r: String)
        ensures
            r@ == terminate_params_debug(self.thread_id@, self.turn_id@, self.item_id@),
    {
        let mut fields: Vec<(String, String)> = Vec::new();
        fields.push(field("thread_id", quoted(self.thread_id.as_str())));
        fields.push(field("turn_id", quoted(self.turn_id.as_str())));
        fields.push(field("item_id", quoted(self.item_id.as_str())));
        fields.push(field("termination", quoted("[REDACTED]")));
        let r = struct_text_of("CommandExecutionTerminateOwnedParams", &fields);
        assert(field_texts(fields@) =~= seq![
            ("thread_id"@, str_debug_text(self.thread_id@)),
            ("turn_id"@, str_debug_text(self.turn_id@)),
            ("item_id"@, str_debug_text(self.item_id@)),
            ("termination"@, str_debug_text("[REDACTED]"@)),
        ]);
        r
    }
}

/// The debug text of a status query: the operation, thread, turn and item, with the
/// process identity redacted.
pub open spec fn status_params_debug(
    operation_id: Seq<char>,
    thread_id: Seq<char>,
    turn_id: Seq<char>,
    item_id: Seq<char>,
) -> Seq<char> {
    struct_text(
        "CommandExecutionTerminateOwnedStatusParams"@,
        seq![
            ("operation_id"@, str_debug_text(operation_id)),
            ("thread_id"@, str_debug_text(thread_id)),
            ("turn_id"@, str_debug_text(turn_id)),
            ("item_id"@, str_debug_text(item_id)),
            ("process_identity"@, str_debug_text("[REDACTED]"@)),
        ],
    )
}

impl CommandExecutionTerminateOwnedStatusParams {
    pub fn debug_text(&self) -> (r: String)
        ensures
            r@ == status_params_debug(
                self.operation_id@,
                self.thread_id@,
                self.turn_id@,
                self.item_id@,
            ),
    {
        let mut fields: Vec<(String, String)> = Vec::new();
        fields.push(field("operation_id", quoted(self.operation_id.as_str())));
        fields.push(field("thread_id", quoted(self.thread_id.as_str())));
        fields.push(field("turn_id", quoted(self.turn_id.as_str())));
        fields.push(field("item_id", quoted(self.item_id.as_str())));
        fields.push(field("process_identity", quoted("[REDACTED]")));
        let r = struct_text_of("CommandExecutionTerminateOwnedStatusParams", &fields);
        assert(field_texts(fields@) =~= seq![
            ("operation_id"@, str_debug_text(self.operation_id@)),
            ("thread_id"@, str_debug_text(self.thread_id@)),
            ("turn_id"@, str_debug_text(self.turn_id@)),
            ("item_id"@, str_debug_text(self.item_id@)),
            ("process_identity"@, str_debug_text("[REDACTED]"@)),
        ]);
        r
    }
}

/// The debug text of terminal evidence: the operation, thread, turn and item, the process
/// identity redacted, and whether the root exit, the tree exit, the output drain and the
/// tool's finalisation were confirmed.
pub open spec fn completion_debug(c: CompletionView) -> Seq<char> {
    struct_text(
        "CommandExecutionTerminateOwnedCompletedNotification"@,
        seq![
            ("operation_id"@, str_debug_text(c.operation_id)),
            ("thread_id"@, str_debug_text(c.thread_id)),
            ("turn_id"@, str_debug_text(c.turn_id)),
            ("item_id"@, str_debug_text(c.item_id)),
            ("process_identity"@, str_debug_text("[REDACTED]"@)),
            ("root_exit_confirmed"@, bool_text(c.root_exit_confirmed)),
            ("tree_exit_confirmed"@, bool_text(c.tree_exit_confirmed)),
            ("drain_complete"@, bool_text(c.drain_complete)),
            ("tool_finalized"@, bool_text(c.tool_finalized)),
        ],
    )
}

impl CommandExecutionTerminateOwnedCompletedNotification {
    pub fn debug_text(&self) -> (r: String)
        ensures
            r@ == completion_debug(self@),
    {
        let mut fields: Vec<(String, String)> = Vec::new();
        fields.push(field("operation_id", quoted(self.operation_id.as_str())));
        fields.push(field("thread_id", quoted(self.thread_id.as_str())));
        fields.push(field("turn_id", quoted(self.turn_id.as_str())));
        fields.push(field("item_id", quoted(self.item_id.as_str())));
        fields.push(field("process_identity", quoted("[REDACTED]")));
        fields.push(field("root_exit_confirmed", bool_text_of(self.root_exit_confirmed)));
        fields.push(field("tree_exit_confirmed", bool_text_of(self.tree_exit_confirmed)));
        fields.push(field("drain_complete", bool_text_of(self.drain_complete)));
        fields.push(field("tool_finalized", bool_text_of(self.tool_finalized)));
        let r = struct_text_of("CommandExecutionTerminateOwnedCompletedNotification", &fields);
        assert(field_texts(fields@) =~= seq![
            ("operation_id"@, str_debug_text(self.operation_id@)),
            ("thread_id"@, str_debug_text(self.thread_id@)),
            ("turn_id"@, str_debug_text(self.turn_id@)),
            ("item_id"@, str_debug_text(self.item_id@)),
            ("process_identity"@, str_debug_text("[REDACTED]"@)),
            ("root_exit_confirmed"@, bool_text(self.root_exit_confirmed)),
            ("tree_exit_confirmed"@, bool_text(self.tree_exit_confirmed)),
            ("drain_complete"@, bool_text(self.drain_complete)),
            ("tool_finalized"@, bool_text(self.tool_finalized)),
        ]);
        r
    }
}

pub open spec fn opt_int_text(n: Option<i64>) -> Option<Seq<char>> {
    match n {
        Some(x) => Some(int_text(x as int)),
        None => None,
    }
}

pub open spec fn outcome_field(o: Option<TerminateOwnedOutcome>) -> Seq<char> {
    option_text(
        match o {
            Some(x) => Some(outcome_name(x)),
            None => None,
        },
    )
}

pub open spec fn completion_field(c: Option<CompletionView>) -> Seq<char> {
    option_text(
        match c {
            Some(x) => Some(completion_debug(x)),
            None => None,
        },
    )
}

/// The debug text of a status response; terminal evidence in it shows as its own
/// (redacted) debug text.
pub open spec fn status_debug(v: StatusView) -> Seq<char> {
    struct_text(
        "CommandExecutionTerminateOwnedStatusResponse"@,
        seq![
            ("state"@, state_name(v.state)),
            ("operation_id"@, str_debug_text(v.operation_id)),
            ("created_at"@, option_text(opt_int_text(v.created_at))),
            ("accepted_at"@, option_text(opt_int_text(v.accepted_at))),
            ("initial_outcome"@, outcome_field(v.initial_outcome)),
            ("completion"@, completion_field(v.completion)),
        ],
    )
}

fn opt_int_text_of(n: Option<i64>) -> (r: String)
    ensures
        r@ == option_text(opt_int_text(n)),
{
    option_text_of(
        match n {
            Some(x) => Some(int_text_of(x)),
            None => None,
        },
    )
}

impl CommandExecutionTerminateOwnedStatusResponse {
    pub fn debug_text(&self) -> (r: String)
        ensures
            r@ == status_debug(self@),
    {
        let mut fields: Vec<(String, String)> = Vec::new();
        fields.push(field("state", self.state.debug_text()));
        fields.push(field("operation_id", quoted(self.operation_id.as_str())));
        fields.push(field("created_at", opt_int_text_of(self.created_at)));
        fields.push(field("accepted_at", opt_int_text_of(self.accepted_at)));
        let outcome = option_text_of(
            match &self.initial_outcome {
                Some(o) => Some(o.debug_text()),
                None => None,
            },
        );
        fields.push(field("initial_outcome", outcome));
        let completion = option_text_of(
            match &self.completion {
                Some(c) => Some(c.debug_text()),
                None => None,
            },
        );
        fields.push(field("completion", completion));
        let r = struct_text_of("CommandExecutionTerminateOwnedStatusResponse", &fields);
        assert(field_texts(fields@) =~= seq![
            ("state"@, state_name(self@.state)),
            ("operation_id"@, str_debug_text(self@.operation_id)),
            ("created_at"@, option_text(opt_int_text(self@.created_at))),
            ("accepted_at"@, option_text(opt_int_text(self@.accepted_at))),
            ("initial_outcome"@, outcome_field(self@.initial_outcome)),
            ("completion"@, completion_field(self@.completion)),
        ]);
        r
    }
}

/// The debug text of terminal evidence never depends on the process identity it carries,
/// nor on any field other than the ids and the four confirmation flags it shows.
pub proof fn law_completion_debug_hides_identity(a: CompletionView, b: CompletionView)
    requires
        a.operation_id == b.operation_id,
        a.thread_id == b.thread_id,
        a.turn_id == b.turn_id,
        a.item_id == b.item_id,
        a.root_exit_confirmed == b.root_exit_confirmed,
        a.tree_exit_confirmed == b.tree_exit_confirmed,
        a.drain_complete == b.drain_complete,
        a.tool_finalized == b.tool_finalized,
    ensures
        completion_debug(a) == completion_debug(b),
{
}

} // verus!
