use vstd::prelude::*;

use std::collections::VecDeque;

use crate::identity::{IdentityView, NativeProcessIdentity};
use crate::keyed::KeyedVec;
use crate::protocol::{
    opt_completion, CommandExecutionTerminateOwnedCompletedNotification,
    CommandExecutionTerminateOwnedStatusResponse, CompletionView, ParamsView,
    StatusView, TerminateOwnedOperationState, TerminateOwnedOutcome, TerminateOwnedParams,
};
use crate::text::chars_of;

verus! {

pub const TERMINATE_OWNED_COMPLETION_VERSION: u32 = 1;

pub const TERMINATE_OWNED_TERMINAL_RETENTION_SECONDS: i64 = 15 * 60;

pub const TERMINATE_OWNED_OPERATION_CAPACITY: usize = 1024;

/// A character that an operation id may hold: an ASCII letter or digit, `-` or `_`.
pub open spec fn is_operation_id_char(c: char) -> bool {
    ('a' <= c && c <= 'z') || ('A' <= c && c <= 'Z') || ('0' <= c && c <= '9') || c == '-' || c
        == '_'
}

/// An operation id is 1 to 128 characters, each an ASCII letter or digit, `-` or `_`.
pub open spec fn is_valid_operation_id(s: Seq<char>) -> bool {
    &&& 0 < s.len() <= 128
    &&& forall|i: int| 0 <= i < s.len() ==> is_operation_id_char(#[trigger] s[i])
}

pub fn valid_termination_operation_id(operation_id: &str) -> (r: bool)
    ensures
        r == is_valid_operation_id(operation_id@),
{
    let chars = chars_of(operation_id);
    let mut i: usize = 0;
    while i < chars.len()
        invariant
            i <= chars@.len(),
            chars@ == operation_id@,
            forall|j: int| 0 <= j < i ==> is_operation_id_char(#[trigger] chars@[j]),
        decreases chars@.len() - i,
    {
        let c = chars[i];
        if !(('a' <= c && c <= 'z') || ('A' <= c && c <= 'Z') || ('0' <= c && c <= '9') || c
            == '-' || c == '_') {
            return false;
        }
        i = i + 1;
    }
    chars.len() > 0 && chars.len() <= 128
}

/// The request that an owned-termination operation carries out; a retried request must
/// present the same one.
pub struct TerminateOwnedCorrelation {
    pub thread_id: String,
    pub turn_id: String,
    pub item_id: String,
    pub termination: TerminateOwnedParams,
}

pub struct CorrelationView {
    pub thread_id: Seq<char>,
    pub turn_id: Seq<char>,
    pub item_id: Seq<char>,
    pub termination: ParamsView,
}

impl View for TerminateOwnedCorrelation {
    type V = CorrelationView;

    open spec fn view(&self) -> CorrelationView {
        CorrelationView {
            thread_id: self.thread_id@,
            turn_id: self.turn_id@,
            item_id: self.item_id@,
            termination: self.termination@,
        }
    }
}

impl Clone for TerminateOwnedCorrelation {
    fn clone(&self) -> (r: Self)
        ensures
            r@ == self@,
    {
        TerminateOwnedCorrelation {
            thread_id: self.thread_id.clone(),
            turn_id: self.turn_id.clone(),
            item_id: self.item_id.clone(),
            termination: self.termination.clone(),
        }
    }
}

impl PartialEq for TerminateOwnedCorrelation {
    fn eq(&self, other: &Self) -> (r: bool) {
        self.thread_id == other.thread_id && self.turn_id == other.turn_id && self.item_id
            == other.item_id && self.termination == other.termination
    }
}

impl vstd::std_specs::cmp::PartialEqSpecImpl for TerminateOwnedCorrelation {
    open spec fn obeys_eq_spec() -> bool {
        true
    }

    open spec fn eq_spec(&self, other: &Self) -> bool {
        self@ == other@
    }
}

impl Eq for TerminateOwnedCorrelation {

}

struct OperationRecord {
    correlation: TerminateOwnedCorrelation,
    created_at: i64,
    accepted_at: Option<i64>,
    initial_outcome: Option<TerminateOwnedOutcome>,
    completion: Option<CommandExecutionTerminateOwnedCompletedNotification>,
}

/// What the registry keeps of one operation that is in progress or terminal.
pub struct RecordView {
    pub correlation: CorrelationView,
    pub created_at: i64,
    pub accepted_at: Option<i64>,
    pub initial_outcome: Option<TerminateOwnedOutcome>,
    pub completion: Option<CompletionView>,
}

impl View for OperationRecord {
    type V = RecordView;

    closed spec fn view(&self) -> RecordView {
        RecordView {
            correlation: self.correlation@,
            created_at: self.created_at,
            accepted_at: self.accepted_at,
            initial_outcome: self.initial_outcome,
            completion: opt_completion(self.completion),
        }
    }
}

/// The abstract state of a registry: the live records by operation id, the order in
/// which records became terminal, the correlations remembered for expired operations by
/// operation id with the order in which they expired, and the two limits.
pub struct RegistryView {
    pub records: Map<Seq<char>, RecordView>,
    pub terminal_order: Seq<Seq<char>>,
    pub expired: Map<Seq<char>, CorrelationView>,
    pub expired_order: Seq<Seq<char>>,
    pub capacity: usize,
    pub retention_seconds: i64,
}

pub open spec fn texts_of(q: Seq<String>) -> Seq<Seq<char>> {
    q.map_values(|s: String| s@)
}

/// The invariant of a registry: both maps are finite and hold at most `capacity` entries,
/// no operation is both live and expired, and the expiry order lists each expired
/// operation exactly once.
pub open spec fn registry_inv(s: RegistryView) -> bool {
    &&& s.records.dom().finite()
    &&& s.expired.dom().finite()
    &&& s.records.dom().len() <= s.capacity
    &&& s.expired.dom().len() <= s.capacity
    &&& forall|k: Seq<char>| #[trigger] s.records.contains_key(k) ==> !s.expired.contains_key(k)
    &&& order_lists_keys(s.expired, s.expired_order)
}

/// `order` lists each key of `m` exactly once, and nothing else.
pub open spec fn order_lists_keys(m: Map<Seq<char>, CorrelationView>, order: Seq<Seq<char>>) -> bool {
    &&& order.no_duplicates()
    &&& forall|k: Seq<char>| #[trigger] m.contains_key(k) <==> order.contains(k)
    &&& m.dom().len() == order.len()
}

/// The registry with the front of the terminal order dropped.
pub open spec fn pop_terminal(s: RegistryView) -> RegistryView {
    RegistryView { terminal_order: s.terminal_order.drop_first(), ..s }
}

/// Forgets the oldest expired operations until at most `capacity` are remembered.
pub open spec fn trim_expired(
    expired: Map<Seq<char>, CorrelationView>,
    order: Seq<Seq<char>>,
    capacity: usize,
) -> (Map<Seq<char>, CorrelationView>, Seq<Seq<char>>)
    decreases order.len(),
{
    if expired.dom().len() > capacity && order.len() > 0 {
        trim_expired(expired.remove(order[0]), order.drop_first(), capacity)
    } else {
        (expired, order)
    }
}

/// Moves the live record of `id`, if there is one, to the expired operations, keeping
/// only its correlation, and then forgets the oldest expired operations beyond capacity.
pub open spec fn expire_spec(s: RegistryView, id: Seq<char>) -> RegistryView {
    if s.records.contains_key(id) {
        let trimmed = trim_expired(
            s.expired.insert(id, s.records[id].correlation),
            s.expired_order.push(id),
            s.capacity,
        );
        RegistryView {
            records: s.records.remove(id),
            expired: trimmed.0,
            expired_order: trimmed.1,
            ..s
        }
    } else {
        s
    }
}

/// Whether the terminal record of `id` is at least `retention_seconds` old at `now`.
pub open spec fn is_stale(s: RegistryView, id: Seq<char>, now: i64) -> bool {
    now - s.records[id].completion.unwrap().completed_at >= s.retention_seconds
}

/// Walks the terminal order from its front: entries whose record is gone or not terminal
/// are dropped, terminal records at least `retention_seconds` old at `now` expire, and
/// the walk stops at the first terminal record that is younger.
pub open spec fn purge_spec(s: RegistryView, now: i64) -> RegistryView
    decreases s.terminal_order.len(),
{
    if s.terminal_order.len() == 0 {
        s
    } else {
        let id = s.terminal_order[0];
        if s.records.contains_key(id) && s.records[id].completion is Some {
            if !is_stale(s, id, now) {
                s
            } else {
                purge_spec(expire_spec(pop_terminal(s), id), now)
            }
        } else {
            purge_spec(pop_terminal(s), now)
        }
    }
}

/// Makes room for one more live record: while the registry is full, the operation at the
/// front of the terminal order expires. The flag is set when the terminal order ran out
/// first.
pub open spec fn evict_spec(s: RegistryView) -> (RegistryView, bool)
    decreases s.terminal_order.len(),
{
    if s.records.dom().len() < s.capacity {
        (s, false)
    } else if s.terminal_order.len() == 0 {
        (s, true)
    } else {
        evict_spec(expire_spec(pop_terminal(s), s.terminal_order[0]))
    }
}

/// The status of a live record.
pub open spec fn record_status(id: Seq<char>, r: RecordView) -> StatusView {
    StatusView {
        state: if r.completion is Some {
            TerminateOwnedOperationState::Terminal
        } else {
            TerminateOwnedOperationState::InProgress
        },
        operation_id: id,
        created_at: Some(r.created_at),
        accepted_at: r.accepted_at,
        initial_outcome: r.initial_outcome,
        completion: r.completion,
    }
}

/// The status of an expired operation: nothing but its id is remembered.
pub open spec fn expired_status(id: Seq<char>) -> StatusView {
    StatusView {
        state: TerminateOwnedOperationState::Expired,
        operation_id: id,
        created_at: None,
        accepted_at: None,
        initial_outcome: None,
        completion: None,
    }
}

pub open spec fn fresh_record(c: CorrelationView, now: i64) -> RecordView {
    RecordView {
        correlation: c,
        created_at: now,
        accepted_at: None,
        initial_outcome: None,
        completion: None,
    }
}

/// The answer of [`TerminateOwnedOperationRegistry::reserve`].
pub enum ReserveResult {
    Reserved,
    Duplicate(Box<CommandExecutionTerminateOwnedStatusResponse>),
    Conflict,
    Full,
}

pub enum ReserveOutcome {
    Reserved,
    Duplicate(StatusView),
    Conflict,
    Full,
}

impl View for ReserveResult {
    type V = ReserveOutcome;

    open spec fn view(&self) -> ReserveOutcome {
        match self {
            ReserveResult::Reserved => ReserveOutcome::Reserved,
            ReserveResult::Duplicate(b) => ReserveOutcome::Duplicate(b@),
            ReserveResult::Conflict => ReserveOutcome::Conflict,
            ReserveResult::Full => ReserveOutcome::Full,
        }
    }
}

/// Reserving `id` for the request `c` at `now`: expired terminal records are purged
/// first; a live record of `id` makes the request a duplicate when its correlation is the
/// same and a conflict otherwise; an expired `id` is a conflict; otherwise room is made
/// by expiring terminal records, and the registry is full when none is left to expire.
pub open spec fn reserve_spec(s: RegistryView, id: Seq<char>, c: CorrelationView, now: i64) -> (
    RegistryView,
    ReserveOutcome,
) {
    let p = purge_spec(s, now);
    if p.records.contains_key(id) {
        if p.records[id].correlation == c {
            (p, ReserveOutcome::Duplicate(record_status(id, p.records[id])))
        } else {
            (p, ReserveOutcome::Conflict)
        }
    } else if p.expired.contains_key(id) {
        (p, ReserveOutcome::Conflict)
    } else {
        let e = evict_spec(p);
        if e.1 {
            (e.0, ReserveOutcome::Full)
        } else {
            (
                RegistryView { records: e.0.records.insert(id, fresh_record(c, now)), ..e.0 },
                ReserveOutcome::Reserved,
            )
        }
    }
}

/// Recording that the operation `id` was accepted at `now` with its initial outcome; an
/// unknown `id` changes nothing.
pub open spec fn accept_spec(
    s: RegistryView,
    id: Seq<char>,
    outcome: TerminateOwnedOutcome,
    now: i64,
) -> RegistryView {
    if s.records.contains_key(id) {
        RegistryView {
            records: s.records.insert(
                id,
                RecordView { accepted_at: Some(now), initial_outcome: Some(outcome), ..s.records[id] },
            ),
            ..s
        }
    } else {
        s
    }
}

/// Forgetting a refused operation: its live record is dropped.
pub open spec fn refuse_spec(s: RegistryView, id: Seq<char>) -> RegistryView {
    RegistryView { records: s.records.remove(id), ..s }
}

/// Publishing terminal evidence for `id`: the first completion is kept and `id` joins the
/// terminal order; the flag tells whether `id` had a live record.
pub open spec fn complete_spec(s: RegistryView, id: Seq<char>, c: CompletionView) -> (
    RegistryView,
    bool,
) {
    if !s.records.contains_key(id) {
        (s, false)
    } else if s.records[id].completion is None {
        (
            RegistryView {
                records: s.records.insert(id, RecordView { completion: Some(c), ..s.records[id] }),
                terminal_order: s.terminal_order.push(id),
                ..s
            },
            true,
        )
    } else {
        (s, true)
    }
}

/// A status query for `id` by the request it carries out, after the purge at `now`.
pub open spec fn status_spec(s: RegistryView, id: Seq<char>, c: CorrelationView, now: i64) -> (
    RegistryView,
    Option<StatusView>,
) {
    let p = purge_spec(s, now);
    if p.records.contains_key(id) {
        (
            p,
            if p.records[id].correlation == c {
                Some(record_status(id, p.records[id]))
            } else {
                None
            },
        )
    } else if p.expired.contains_key(id) && p.expired[id] == c {
        (p, Some(expired_status(id)))
    } else {
        (p, None)
    }
}

/// Whether `c` is the correlation of a request about the process `identity` for the given
/// thread, turn and item.
pub open spec fn correlates(
    c: CorrelationView,
    thread_id: Seq<char>,
    turn_id: Seq<char>,
    item_id: Seq<char>,
    identity: IdentityView,
) -> bool {
    &&& c.thread_id == thread_id
    &&& c.turn_id == turn_id
    &&& c.item_id == item_id
    &&& c.termination.expected_identity == identity
}

/// A status query for `id` by thread, turn, item and process identity, after the purge
/// at `now`.
pub open spec fn status_by_identity_spec(
    s: RegistryView,
    id: Seq<char>,
    thread_id: Seq<char>,
    turn_id: Seq<char>,
    item_id: Seq<char>,
    identity: IdentityView,
    now: i64,
) -> (RegistryView, Option<StatusView>) {
    let p = purge_spec(s, now);
    if p.records.contains_key(id) {
        (
            p,
            if correlates(p.records[id].correlation, thread_id, turn_id, item_id, identity) {
                Some(record_status(id, p.records[id]))
            } else {
                None
            },
        )
    } else if p.expired.contains_key(id) && correlates(
        p.expired[id],
        thread_id,
        turn_id,
        item_id,
        identity,
    ) {
        (p, Some(expired_status(id)))
    } else {
        (p, None)
    }
}

pub proof fn lemma_trim_step(e: Map<Seq<char>, CorrelationView>, o: Seq<Seq<char>>)
    requires
        e.dom().finite(),
        order_lists_keys(e, o),
        o.len() > 0,
    ensures
        e.remove(o[0]).dom().finite(),
        order_lists_keys(e.remove(o[0]), o.drop_first()),
{
    let k0 = o[0];
    assert(o.contains(k0));
    assert(e.contains_key(k0));
    assert(e.remove(o[0]).dom() =~= e.dom().remove(k0));
    assert forall|k: Seq<char>| #[trigger] e.remove(k0).contains_key(k) <==> o.drop_first().contains(
        k,
    ) by {
        if o.drop_first().contains(k) {
            let j = choose|j: int| 0 <= j < o.drop_first().len() && o.drop_first()[j] == k;
            assert(o[j + 1] == k);
            assert(o.contains(k));
            assert(k != k0);
        }
        if e.remove(k0).contains_key(k) {
            assert(o.contains(k));
            let j = choose|j: int| 0 <= j < o.len() && o[j] == k;
            assert(j != 0);
            assert(o.drop_first()[j - 1] == k);
        }
    }
}

/// Trimming keeps a consistent expiry order, never invents or changes a remembered
/// correlation, and leaves at most `capacity` of them.
pub proof fn lemma_trim(e: Map<Seq<char>, CorrelationView>, o: Seq<Seq<char>>, capacity: usize)
    requires
        e.dom().finite(),
        order_lists_keys(e, o),
    ensures
        trim_expired(e, o, capacity).0.dom().finite(),
        order_lists_keys(trim_expired(e, o, capacity).0, trim_expired(e, o, capacity).1),
        trim_expired(e, o, capacity).0.dom().len() <= capacity,
        forall|k: Seq<char>| #[trigger]
            trim_expired(e, o, capacity).0.contains_key(k) ==> e.contains_key(k)
                && trim_expired(e, o, capacity).0[k] == e[k],
    decreases o.len(),
{
    if e.dom().len() > capacity && o.len() > 0 {
        lemma_trim_step(e, o);
        lemma_trim(e.remove(o[0]), o.drop_first(), capacity);
    }
}

/// Remembering a live operation as expired, before trimming, keeps a consistent expiry
/// order.
proof fn lemma_untrimmed_expiry_order(s: RegistryView, id: Seq<char>)
    requires
        registry_inv(s),
        s.records.contains_key(id),
    ensures
        s.expired.insert(id, s.records[id].correlation).dom().finite(),
        order_lists_keys(s.expired.insert(id, s.records[id].correlation), s.expired_order.push(id)),
{
    let e = s.expired.insert(id, s.records[id].correlation);
    let o = s.expired_order.push(id);
    assert(!s.expired.contains_key(id));
    assert(!s.expired_order.contains(id));
    assert(e.dom() =~= s.expired.dom().insert(id));
    assert forall|k: Seq<char>| #[trigger] e.contains_key(k) <==> o.contains(k) by {
        if o.contains(k) && k != id {
            let j = choose|j: int| 0 <= j < o.len() && o[j] == k;
            assert(s.expired_order[j] == k);
        }
        if e.contains_key(k) && k != id {
            assert(s.expired_order.contains(k));
            let j = choose|j: int| 0 <= j < s.expired_order.len() && s.expired_order[j] == k;
            assert(o[j] == k);
        }
        if k == id {
            assert(o[o.len() - 1] == id);
        }
    }
    assert(o.no_duplicates()) by {
        assert forall|a: int, b: int| 0 <= a < o.len() && 0 <= b < o.len() && a != b implies o[a]
            != o[b] by {
            if b == o.len() - 1 && a < s.expired_order.len() {
                assert(s.expired_order.contains(s.expired_order[a]));
            } else if a == o.len() - 1 && b < s.expired_order.len() {
                assert(s.expired_order.contains(s.expired_order[b]));
            }
        }
    }
}

/// Expiring a record keeps the registry invariant and touches neither the terminal order
/// nor the limits; the expired operation's record is gone.
pub proof fn lemma_expire_inv(s: RegistryView, id: Seq<char>)
    requires
        registry_inv(s),
    ensures
        registry_inv(expire_spec(s, id)),
        expire_spec(s, id).terminal_order == s.terminal_order,
        expire_spec(s, id).capacity == s.capacity,
        expire_spec(s, id).retention_seconds == s.retention_seconds,
        expire_spec(s, id).records == s.records.remove(id),
        forall|k: Seq<char>| #[trigger]
            expire_spec(s, id).expired.contains_key(k) ==> s.expired.contains_key(k) || (k == id
                && s.records.contains_key(id)),
{
    if s.records.contains_key(id) {
        let e = s.expired.insert(id, s.records[id].correlation);
        let o = s.expired_order.push(id);
        lemma_untrimmed_expiry_order(s, id);
        lemma_trim(e, o, s.capacity);
        assert(s.records.remove(id).dom() =~= s.records.dom().remove(id));
    } else {
        assert(s.records.remove(id) =~= s.records);
    }
}

/// The purge keeps the registry invariant and the limits.
pub proof fn lemma_purge_inv(s: RegistryView, now: i64)
    requires
        registry_inv(s),
    ensures
        registry_inv(purge_spec(s, now)),
        purge_spec(s, now).capacity == s.capacity,
        purge_spec(s, now).retention_seconds == s.retention_seconds,
    decreases s.terminal_order.len(),
{
    if s.terminal_order.len() > 0 {
        let id = s.terminal_order[0];
        if s.records.contains_key(id) && s.records[id].completion is Some {
            if is_stale(s, id, now) {
                lemma_expire_inv(pop_terminal(s), id);
                lemma_purge_inv(expire_spec(pop_terminal(s), id), now);
            }
        } else {
            lemma_purge_inv(pop_terminal(s), now);
        }
    }
}

/// Eviction keeps the registry invariant and the limits, and leaves room for a record
/// unless it reports that the registry is full.
pub proof fn lemma_evict_inv(s: RegistryView)
    requires
        registry_inv(s),
    ensures
        registry_inv(evict_spec(s).0),
        evict_spec(s).0.capacity == s.capacity,
        evict_spec(s).0.retention_seconds == s.retention_seconds,
        !evict_spec(s).1 ==> evict_spec(s).0.records.dom().len() < s.capacity,
    decreases s.terminal_order.len(),
{
    if s.records.dom().len() >= s.capacity && s.terminal_order.len() > 0 {
        lemma_expire_inv(pop_terminal(s), s.terminal_order[0]);
        lemma_evict_inv(expire_spec(pop_terminal(s), s.terminal_order[0]));
    }
}

fn status_response(operation_id: &String, record: &OperationRecord) -> (r:
    CommandExecutionTerminateOwnedStatusResponse)
    ensures
        r@ == record_status(operation_id@, record@),
{
    CommandExecutionTerminateOwnedStatusResponse {
        state: if record.completion.is_some() {
            TerminateOwnedOperationState::Terminal
        } else {
            TerminateOwnedOperationState::InProgress
        },
        operation_id: operation_id.clone(),
        created_at: Some(record.created_at),
        accepted_at: record.accepted_at,
        initial_outcome: record.initial_outcome,
        completion: match &record.completion {
            Some(c) => Some(c.clone()),
            None => None,
        },
    }
}

fn expired_status_response(operation_id: &String) -> (r:
    CommandExecutionTerminateOwnedStatusResponse)
    ensures
        r@ == expired_status(operation_id@),
{
    CommandExecutionTerminateOwnedStatusResponse {
        state: TerminateOwnedOperationState::Expired,
        operation_id: operation_id.clone(),
        created_at: None,
        accepted_at: None,
        initial_outcome: None,
        completion: None,
    }
}

proof fn lemma_texts_pop(q: Seq<String>)
    requires
        q.len() > 0,
    ensures
        texts_of(q.subrange(1, q.len() as int)) == texts_of(q).drop_first(),
        texts_of(q)[0] == q[0]@,
{
    assert(texts_of(q.subrange(1, q.len() as int)) =~= texts_of(q).drop_first());
}

proof fn lemma_texts_push(q: Seq<String>, s: String)
    ensures
        texts_of(q.push(s)) == texts_of(q).push(s@),
{
    assert(texts_of(q.push(s)) =~= texts_of(q).push(s@));
}

/// Remembers owned-termination operations: each is reserved under an operation id, then
/// accepted or refused, and may later publish terminal evidence. Terminal records are kept
/// for a retention period and then expire; expired operations are remembered by their
/// correlation alone, for as many operations as the capacity allows.
pub struct TerminateOwnedOperationRegistry {
    records: KeyedVec<OperationRecord>,
    terminal_order: VecDeque<String>,
    expired: KeyedVec<TerminateOwnedCorrelation>,
    expired_order: VecDeque<String>,
    capacity: usize,
    retention_seconds: i64,
}

impl View for TerminateOwnedOperationRegistry {
    type V = RegistryView;

    closed spec fn view(&self) -> RegistryView {
        RegistryView {
            records: self.records@,
            terminal_order: texts_of(self.terminal_order@),
            expired: self.expired@,
            expired_order: texts_of(self.expired_order@),
            capacity: self.capacity,
            retention_seconds: self.retention_seconds,
        }
    }
}

impl TerminateOwnedOperationRegistry {
    pub closed spec fn wf(&self) -> bool {
        &&& self.records.wf()
        &&& self.expired.wf()
        &&& registry_inv(self@)
    }

    /// A registry satisfies the registry invariant; in particular it never holds more than
    /// `capacity` live records, nor remembers more than `capacity` expired operations, and
    /// no operation is both live and expired.
    pub proof fn law_registry_is_bounded(&self)
        requires
            self.wf(),
        ensures
            registry_inv(self@),
            self@.records.dom().len() <= self@.capacity,
            self@.expired.dom().len() <= self@.capacity,
    {
    }

    /// An empty registry with the default capacity and retention.
    pub fn new() -> (r: Self)
        ensures
            r.wf(),
            r@ == empty_registry(
                TERMINATE_OWNED_OPERATION_CAPACITY,
                TERMINATE_OWNED_TERMINAL_RETENTION_SECONDS,
            ),
    {
        Self::with_limits(
            TERMINATE_OWNED_OPERATION_CAPACITY,
            TERMINATE_OWNED_TERMINAL_RETENTION_SECONDS,
        )
    }

    /// An empty registry with the given capacity and retention period.
    pub fn with_limits(capacity: usize, retention_seconds: i64) -> (r: Self)
        ensures
            r.wf(),
            r@ == empty_registry(capacity, retention_seconds),
    {
        let r = TerminateOwnedOperationRegistry {
            records: KeyedVec::new(),
            terminal_order: VecDeque::new(),
            expired: KeyedVec::new(),
            expired_order: VecDeque::new(),
            capacity,
            retention_seconds,
        };
        assert(texts_of(r.terminal_order@) =~= Seq::<Seq<char>>::empty());
        assert(texts_of(r.expired_order@) =~= Seq::<Seq<char>>::empty());
        r
    }

    fn expire_record(&mut self, operation_id: &String)
        requires
            old(self).wf(),
        ensures
            final(self).wf(),
            final(self)@ == expire_spec(old(self)@, operation_id@),
    {
        let ghost s0 = self@;
        proof {
            lemma_expire_inv(s0, operation_id@);
        }
        match self.records.remove(operation_id) {
            None => {
                assert(self@ =~= expire_spec(s0, operation_id@));
            },
            Some(record) => {
                let ghost target = trim_expired(
                    s0.expired.insert(operation_id@, s0.records[operation_id@].correlation),
                    s0.expired_order.push(operation_id@),
                    s0.capacity,
                );
                let key = operation_id.clone();
                let queued = operation_id.clone();
                let ghost order_before = self.expired_order@;
                proof {
                    assert(!s0.expired.contains_key(operation_id@));
                    lemma_texts_push(order_before, queued);
                }
                self.expired.insert_new(key, record.correlation);
                self.expired_order.push_back(queued);
                proof {
                    assert(texts_of(self.expired_order@) == s0.expired_order.push(operation_id@));
                    lemma_untrimmed_expiry_order(s0, operation_id@);
                    self.expired.lemma_finite();
                }
                while self.expired.len() > self.capacity
                    invariant
                        self.expired.wf(),
                        self.records.wf(),
                        self.records@ == s0.records.remove(operation_id@),
                        texts_of(self.terminal_order@) == s0.terminal_order,
                        self.capacity == s0.capacity,
                        self.retention_seconds == s0.retention_seconds,
                        order_lists_keys(self.expired@, texts_of(self.expired_order@)),
                        trim_expired(self.expired@, texts_of(self.expired_order@), self.capacity)
                            == target,
                    decreases self.expired_order@.len(),
                {
                    proof {
                        self.expired.lemma_finite();
                    }
                    let ghost before = self.expired_order@;
                    proof {
                        if before.len() > 0 {
                            lemma_texts_pop(before);
                            lemma_trim_step(self.expired@, texts_of(before));
                        }
                    }
                    match self.expired_order.pop_front() {
                        Some(oldest) => {
                            self.expired.remove(&oldest);
                        },
                        None => {
                            assert(false);
                        },
                    }
                }
                proof {
                    self.expired.lemma_finite();
                    assert(self@ =~= expire_spec(s0, operation_id@));
                }
            },
        }
    }

    fn purge_expired(&mut self, now: i64)
        requires
            old(self).wf(),
        ensures
            final(self).wf(),
            final(self)@ == purge_spec(old(self)@, now),
    {
        loop
            invariant
                self.wf(),
                purge_spec(self@, now) == purge_spec(old(self)@, now),
            ensures
                self.wf(),
                self@ == purge_spec(old(self)@, now),
            decreases self.terminal_order@.len(),
        {
            if self.terminal_order.len() == 0 {
                break;
            }
            let operation_id = self.terminal_order[0].clone();
            let ghost s = self@;
            proof {
                lemma_texts_pop(self.terminal_order@);
            }
            let expire_now = match self.records.get(&operation_id) {
                Some(record) => match &record.completion {
                    Some(completion) => {
                        if (now as i128) - (completion.completed_at as i128) < (
                        self.retention_seconds as i128) {
                            break;
                        }
                        true
                    },
                    None => false,
                },
                None => false,
            };
            self.terminal_order.pop_front();
            assert(self@ == pop_terminal(s));
            if expire_now {
                proof {
                    lemma_expire_inv(pop_terminal(s), operation_id@);
                }
                self.expire_record(&operation_id);
            }
        }
    }

    /// Reserves `operation_id` for the request `correlation` at `now`.
    pub fn reserve(
        &mut self,
        operation_id: &str,
        correlation: TerminateOwnedCorrelation,
        now: i64,
    ) -> (r: ReserveResult)
        requires
            old(self).wf(),
        ensures
            final(self).wf(),
            (final(self)@, r@) == reserve_spec(old(self)@, operation_id@, correlation@, now),
    {
        self.purge_expired(now);
        let key = String::from_str(operation_id);
        match self.records.get(&key) {
            Some(record) => {
                if record.correlation == correlation {
                    return ReserveResult::Duplicate(Box::new(status_response(&key, record)));
                } else {
                    return ReserveResult::Conflict;
                }
            },
            None => {},
        }
        if self.expired.contains(&key) {
            return ReserveResult::Conflict;
        }
        let ghost p = self@;
        proof {
            lemma_evict_inv(p);
        }
        while self.records.len() >= self.capacity
            invariant
                self.wf(),
                evict_spec(self@) == evict_spec(p),
                p == purge_spec(old(self)@, now),
                key@ == operation_id@,
                !p.records.contains_key(key@),
                !p.expired.contains_key(key@),
                !self@.records.contains_key(key@),
                !self@.expired.contains_key(key@),
            decreases self.terminal_order@.len(),
        {
            let ghost s = self@;
            if self.terminal_order.len() == 0 {
                assert(self@.terminal_order.len() == 0);
                assert(evict_spec(self@) == (self@, true));
                return ReserveResult::Full;
            }
            proof {
                lemma_texts_pop(self.terminal_order@);
            }
            let oldest = match self.terminal_order.pop_front() {
                Some(o) => o,
                None => {
                    return ReserveResult::Full;
                },
            };
            assert(self@ == pop_terminal(s));
            proof {
                lemma_expire_inv(pop_terminal(s), oldest@);
            }
            self.expire_record(&oldest);
        }
        let ghost before = self@;
        self.records.insert_new(
            key,
            OperationRecord {
                correlation,
                created_at: now,
                accepted_at: None,
                initial_outcome: None,
                completion: None,
            },
        );
        proof {
            assert(self.records@.dom() =~= before.records.dom().insert(operation_id@));
        }
        ReserveResult::Reserved
    }

    /// Records that `operation_id` was accepted at `now` with `outcome`.
    pub fn accept(&mut self, operation_id: &str, outcome: TerminateOwnedOutcome, now: i64)
        requires
            old(self).wf(),
        ensures
            final(self).wf(),
            final(self)@ == accept_spec(old(self)@, operation_id@, outcome, now),
    {
        let key = String::from_str(operation_id);
        match self.records.remove(&key) {
            Some(mut record) => {
                record.accepted_at = Some(now);
                record.initial_outcome = Some(outcome);
                self.records.insert_new(key, record);
                proof {
                    assert(self.records@ =~= old(self)@.records.insert(
                        operation_id@,
                        RecordView {
                            accepted_at: Some(now),
                            initial_outcome: Some(outcome),
                            ..old(self)@.records[operation_id@]
                        },
                    ));
                    assert(self.records@.dom() =~= old(self)@.records.dom());
                }
            },
            None => {
                assert(self.records@ =~= old(self)@.records);
            },
        }
    }

    /// Forgets the live record of a refused operation.
    pub fn refuse(&mut self, operation_id: &str)
        requires
            old(self).wf(),
        ensures
            final(self).wf(),
            final(self)@ == refuse_spec(old(self)@, operation_id@),
    {
        let key = String::from_str(operation_id);
        self.records.remove(&key);
        proof {
            assert(self.records@.dom() =~= old(self)@.records.dom().remove(operation_id@));
        }
    }

    /// Publishes terminal evidence for `operation_id`; tells whether it had a live record.
    pub fn complete(
        &mut self,
        operation_id: &str,
        completion: CommandExecutionTerminateOwnedCompletedNotification,
    ) -> (r: bool)
        requires
            old(self).wf(),
        ensures
            final(self).wf(),
            (final(self)@, r) == complete_spec(old(self)@, operation_id@, completion@),
    {
        let key = String::from_str(operation_id);
        match self.records.remove(&key) {
            Some(mut record) => {
                let ghost c = completion@;
                if record.completion.is_none() {
                    record.completion = Some(completion);
                    let queued = key.clone();
                    self.records.insert_new(key, record);
                    proof {
                        lemma_texts_push(self.terminal_order@, queued);
                    }
                    self.terminal_order.push_back(queued);
                    proof {
                        assert(self.records@ =~= old(self)@.records.insert(
                            operation_id@,
                            RecordView { completion: Some(c), ..old(self)@.records[operation_id@] },
                        ));
                    }
                } else {
                    self.records.insert_new(key, record);
                    proof {
                        assert(self.records@ =~= old(self)@.records);
                    }
                }
                proof {
                    assert(self.records@.dom() =~= old(self)@.records.dom());
                }
                true
            },
            None => {
                assert(self.records@ =~= old(self)@.records);
                false
            },
        }
    }

    /// The status of `operation_id`, provided that it was reserved for `correlation`.
    pub fn status(
        &mut self,
        operation_id: &str,
        correlation: &TerminateOwnedCorrelation,
        now: i64,
    ) -> (r: Option<CommandExecutionTerminateOwnedStatusResponse>)
        requires
            old(self).wf(),
        ensures
            final(self).wf(),
            final(self)@ == status_spec(old(self)@, operation_id@, correlation@, now).0,
            opt_status(r) == status_spec(old(self)@, operation_id@, correlation@, now).1,
    {
        self.purge_expired(now);
        let key = String::from_str(operation_id);
        match self.records.get(&key) {
            Some(record) => {
                return if record.correlation == *correlation {
                    Some(status_response(&key, record))
                } else {
                    None
                };
            },
            None => {},
        }
        match self.expired.get(&key) {
            Some(stored) => if *stored == *correlation {
                Some(expired_status_response(&key))
            } else {
                None
            },
            None => None,
        }
    }

    /// The status of `operation_id`, provided that it was reserved for a request about
    /// `process_identity` on behalf of the given thread, turn and item.
    pub fn status_by_identity(
        &mut self,
        operation_id: &str,
        thread_id: &str,
        turn_id: &str,
        item_id: &str,
        process_identity: &NativeProcessIdentity,
        now: i64,
    ) -> (r: Option<CommandExecutionTerminateOwnedStatusResponse>)
        requires
            old(self).wf(),
        ensures
            final(self).wf(),
            final(self)@ == status_by_identity_spec(
                old(self)@,
                operation_id@,
                thread_id@,
                turn_id@,
                item_id@,
                process_identity@,
                now,
            ).0,
            opt_status(r) == status_by_identity_spec(
                old(self)@,
                operation_id@,
                thread_id@,
                turn_id@,
                item_id@,
                process_identity@,
                now,
            ).1,
    {
        self.purge_expired(now);
        let key = String::from_str(operation_id);
        let thread = String::from_str(thread_id);
        let turn = String::from_str(turn_id);
        let item = String::from_str(item_id);
        match self.records.get(&key) {
            Some(record) => {
                return if correlates_exec(
                    &record.correlation,
                    &thread,
                    &turn,
                    &item,
                    process_identity,
                ) {
                    Some(status_response(&key, record))
                } else {
                    None
                };
            },
            None => {},
        }
        match self.expired.get(&key) {
            Some(stored) => if correlates_exec(stored, &thread, &turn, &item, process_identity) {
                Some(expired_status_response(&key))
            } else {
                None
            },
            None => None,
        }
    }
}

fn correlates_exec(
    c: &TerminateOwnedCorrelation,
    thread_id: &String,
    turn_id: &String,
    item_id: &String,
    identity: &NativeProcessIdentity,
) -> (r: bool)
    ensures
        r == correlates(c@, thread_id@, turn_id@, item_id@, identity@),
{
    c.thread_id == *thread_id && c.turn_id == *turn_id && c.item_id == *item_id
        && c.termination.expected_identity.same_text_as(identity)
}

pub open spec fn opt_status(r: Option<CommandExecutionTerminateOwnedStatusResponse>) -> Option<
    StatusView,
> {
    match r {
        Some(x) => Some(x@),
        None => None,
    }
}

/// An empty registry with the given limits.
pub open spec fn empty_registry(capacity: usize, retention_seconds: i64) -> RegistryView {
    RegistryView {
        records: Map::empty(),
        terminal_order: seq![],
        expired: Map::empty(),
        expired_order: seq![],
        capacity,
        retention_seconds,
    }
}

proof fn lemma_expire_frames(s: RegistryView, id: Seq<char>)
    requires
        registry_inv(s),
    ensures
        forall|k: Seq<char>| #[trigger]
            expire_spec(s, id).records.contains_key(k) ==> s.records.contains_key(k)
                && expire_spec(s, id).records[k] == s.records[k],
        forall|k: Seq<char>|
            #[trigger] s.records.contains_key(k) && k != id ==> expire_spec(
                s,
                id,
            ).records.contains_key(k),
{
    lemma_expire_inv(s, id);
}

proof fn lemma_evict_expired_frames(s: RegistryView)
    requires
        registry_inv(s),
    ensures
        forall|k: Seq<char>| #[trigger]
            evict_spec(s).0.expired.contains_key(k) ==> s.expired.contains_key(k)
                || s.records.contains_key(k),
        forall|k: Seq<char>| #[trigger]
            evict_spec(s).0.records.contains_key(k) ==> s.records.contains_key(k),
    decreases s.terminal_order.len(),
{
    if s.records.dom().len() >= s.capacity && s.terminal_order.len() > 0 {
        let id = s.terminal_order[0];
        let t = expire_spec(pop_terminal(s), id);
        lemma_expire_inv(pop_terminal(s), id);
        lemma_expire_frames(pop_terminal(s), id);
        lemma_evict_expired_frames(t);
        assert(evict_spec(s) == evict_spec(t));
    }
}

/// Every reservation keeps the registry invariant.
pub proof fn lemma_reserve_inv(s: RegistryView, id: Seq<char>, c: CorrelationView, now: i64)
    requires
        registry_inv(s),
    ensures
        registry_inv(reserve_spec(s, id, c, now).0),
{
    lemma_purge_inv(s, now);
    let p = purge_spec(s, now);
    lemma_evict_inv(p);
    lemma_evict_expired_frames(p);
    let e = evict_spec(p);
    if !p.records.contains_key(id) && !p.expired.contains_key(id) && !e.1 {
        assert(!e.0.records.contains_key(id));
        assert(e.0.records.insert(id, fresh_record(c, now)).dom() =~= e.0.records.dom().insert(id));
    }
}

/// The purge only drops terminal records, keeps every other record as it was, and only
/// remembers as expired what was expired or live before.
pub proof fn lemma_purge_frames(s: RegistryView, now: i64)
    requires
        registry_inv(s),
    ensures
        forall|k: Seq<char>| #[trigger]
            purge_spec(s, now).records.contains_key(k) ==> s.records.contains_key(k)
                && purge_spec(s, now).records[k] == s.records[k],
        forall|k: Seq<char>|
            #[trigger] s.records.contains_key(k) && (s.records[k].completion is None || !is_stale(
                s,
                k,
                now,
            )) ==> purge_spec(s, now).records.contains_key(k),
        forall|k: Seq<char>| #[trigger]
            purge_spec(s, now).expired.contains_key(k) ==> s.expired.contains_key(k)
                || s.records.contains_key(k),
    decreases s.terminal_order.len(),
{
    if s.terminal_order.len() > 0 {
        let id = s.terminal_order[0];
        if s.records.contains_key(id) && s.records[id].completion is Some {
            if is_stale(s, id, now) {
                let t = expire_spec(pop_terminal(s), id);
                lemma_expire_inv(pop_terminal(s), id);
                lemma_expire_frames(pop_terminal(s), id);
                lemma_purge_frames(t, now);
                assert(purge_spec(s, now) == purge_spec(t, now));
            }
        } else {
            lemma_purge_frames(pop_terminal(s), now);
            assert(purge_spec(s, now) == purge_spec(pop_terminal(s), now));
        }
    }
}

/// After a purge, the operation at the front of the terminal order, if any, has a live
/// terminal record.
proof fn lemma_purge_front(s: RegistryView, now: i64)
    requires
        registry_inv(s),
    ensures
        purge_spec(s, now).terminal_order.len() > 0 ==> {
            let p = purge_spec(s, now);
            &&& p.records.contains_key(p.terminal_order[0])
            &&& p.records[p.terminal_order[0]].completion is Some
        },
    decreases s.terminal_order.len(),
{
    if s.terminal_order.len() > 0 {
        let id = s.terminal_order[0];
        if s.records.contains_key(id) && s.records[id].completion is Some {
            if is_stale(s, id, now) {
                lemma_expire_inv(pop_terminal(s), id);
                lemma_purge_front(expire_spec(pop_terminal(s), id), now);
            }
        } else {
            lemma_purge_front(pop_terminal(s), now);
        }
    }
}

/// Making room for a new operation never drops an operation that is still in progress:
/// every record that a reservation removes was terminal.
pub proof fn law_reserve_drops_only_terminal_records(
    s: RegistryView,
    id: Seq<char>,
    c: CorrelationView,
    now: i64,
)
    requires
        registry_inv(s),
    ensures
        forall|k: Seq<char>|
            #[trigger] s.records.contains_key(k) && !reserve_spec(s, id, c, now).0.records.contains_key(
                k,
            ) ==> s.records[k].completion is Some,
{
    lemma_purge_frames(s, now);
    lemma_purge_inv(s, now);
    lemma_purge_front(s, now);
    let p = purge_spec(s, now);
    if p.records.dom().len() >= p.capacity && p.terminal_order.len() > 0 {
        let front = p.terminal_order[0];
        let t = expire_spec(pop_terminal(p), front);
        lemma_expire_inv(pop_terminal(p), front);
        assert(t.records.dom() =~= p.records.dom().remove(front));
        assert(t.records.dom().len() == p.records.dom().len() - 1);
        assert(t.records.dom().len() < t.capacity);
        assert(evict_spec(t) == (t, false));
        assert(evict_spec(p) == evict_spec(t));
    }
    assert forall|k: Seq<char>|
        #[trigger] s.records.contains_key(k) && !reserve_spec(s, id, c, now).0.records.contains_key(
            k,
        ) implies s.records[k].completion is Some by {
        if p.records.contains_key(k) {
            assert(p.records[k] == s.records[k]);
        }
    }
}

/// Retrying a reservation that succeeded is idempotent: with the same correlation it is
/// answered as a duplicate, with a different one as a conflict, at any later time, and
/// the reserved record stays as it was.
pub proof fn law_reserve_retry(
    s: RegistryView,
    id: Seq<char>,
    c: CorrelationView,
    now: i64,
    retry: CorrelationView,
    later: i64,
)
    requires
        registry_inv(s),
        reserve_spec(s, id, c, now).1 is Reserved,
    ensures
        ({
            let s1 = reserve_spec(s, id, c, now).0;
            let s2 = reserve_spec(s1, id, retry, later);
            &&& s1.records.contains_key(id)
            &&& s2.0.records.contains_key(id)
            &&& s2.0.records[id] == s1.records[id]
            &&& s2.1 == if retry == c {
                ReserveOutcome::Duplicate(record_status(id, s1.records[id]))
            } else {
                ReserveOutcome::Conflict
            }
        }),
{
    let s1 = reserve_spec(s, id, c, now).0;
    assert(s1.records[id] == fresh_record(c, now));
    lemma_reserve_inv(s, id, c, now);
    lemma_purge_frames(s1, later);
}

/// Once a reserved operation is refused, a status query for it finds nothing, whatever
/// correlation it presents and whenever it is made.
pub proof fn law_refused_operation_is_unknown(
    s: RegistryView,
    id: Seq<char>,
    c: CorrelationView,
    now: i64,
)
    requires
        registry_inv(s),
        s.records.contains_key(id),
    ensures
        status_spec(refuse_spec(s, id), id, c, now).1 is None,
{
    let r = refuse_spec(s, id);
    assert(r.records.dom() =~= s.records.dom().remove(id));
    assert(registry_inv(r));
    lemma_purge_frames(r, now);
}

/// A new registry knows no operation.
pub proof fn law_new_registry_knows_nothing(
    capacity: usize,
    retention_seconds: i64,
    id: Seq<char>,
    c: CorrelationView,
    now: i64,
)
    ensures
        status_spec(empty_registry(capacity, retention_seconds), id, c, now).1 is None,
{
}

/// Accepting, refusing or completing one operation leaves the record of every other
/// operation as it was.
pub proof fn law_operations_are_independent(
    s: RegistryView,
    id: Seq<char>,
    other: Seq<char>,
    outcome: TerminateOwnedOutcome,
    now: i64,
    completion: CompletionView,
)
    requires
        id != other,
    ensures
        accept_spec(s, id, outcome, now).records.contains_key(other) == s.records.contains_key(
            other,
        ),
        accept_spec(s, id, outcome, now).records[other] == s.records[other],
        refuse_spec(s, id).records.contains_key(other) == s.records.contains_key(other),
        refuse_spec(s, id).records[other] == s.records[other],
        complete_spec(s, id, completion).0.records.contains_key(other) == s.records.contains_key(
            other,
        ),
        complete_spec(s, id, completion).0.records[other] == s.records[other],
{
}

/// Terminal evidence is published once: completing an operation again changes nothing
/// and still reports that the operation is known.
pub proof fn law_complete_is_idempotent(
    s: RegistryView,
    id: Seq<char>,
    first: CompletionView,
    second: CompletionView,
)
    ensures
        complete_spec(complete_spec(s, id, first).0, id, second) == (
            complete_spec(s, id, first).0,
            s.records.contains_key(id),
        ),
{
}

/// A duplicate reservation answers with the status that a query for the same operation
/// with the same correlation would report at that time.
pub proof fn law_duplicate_reports_status(
    s: RegistryView,
    id: Seq<char>,
    c: CorrelationView,
    now: i64,
)
    requires
        reserve_spec(s, id, c, now).1 is Duplicate,
    ensures
        status_spec(s, id, c, now) == (
            reserve_spec(s, id, c, now).0,
            Some(reserve_spec(s, id, c, now).1->Duplicate_0),
        ),
{
}

proof fn lemma_trim_keeps_latest(e: Map<Seq<char>, CorrelationView>, o: Seq<Seq<char>>, capacity: usize)
    requires
        e.dom().finite(),
        order_lists_keys(e, o),
    ensures
        trim_expired(e, o, capacity).1 == o.skip(
            if o.len() > capacity {
                o.len() - capacity
            } else {
                0
            },
        ),
    decreases o.len(),
{
    if e.dom().len() > capacity && o.len() > 0 {
        lemma_trim_step(e, o);
        lemma_trim_keeps_latest(e.remove(o[0]), o.drop_first(), capacity);
        let k = o.len() - capacity;
        assert(o.drop_first().skip(k - 1) =~= o.skip(k));
    } else {
        assert(o.skip(0) =~= o);
    }
}

/// When an operation expires, the registry goes on remembering the most recently expired
/// operations, as many as its capacity allows, in the order in which they expired.
pub proof fn law_expired_memory_keeps_most_recent(s: RegistryView, id: Seq<char>)
    requires
        registry_inv(s),
        s.records.contains_key(id),
    ensures
        ({
            let o = s.expired_order.push(id);
            let t = expire_spec(s, id);
            &&& t.expired_order == o.skip(
                if o.len() > s.capacity {
                    o.len() - s.capacity
                } else {
                    0
                },
            )
            &&& forall|k: Seq<char>| #[trigger]
                t.expired.contains_key(k) <==> t.expired_order.contains(k)
            &&& t.expired.contains_key(id) ==> t.expired[id] == s.records[id].correlation
        }),
{
    lemma_expire_inv(s, id);
    lemma_untrimmed_expiry_order(s, id);
    let e = s.expired.insert(id, s.records[id].correlation);
    let o = s.expired_order.push(id);
    lemma_trim(e, o, s.capacity);
    lemma_trim_keeps_latest(e, o, s.capacity);
}

/// Once its retention period has passed, the only terminal record of a registry expires,
/// and a status query with its correlation reports it as expired.
pub proof fn law_terminal_record_expires_after_retention(s: RegistryView, id: Seq<char>, now: i64)
    requires
        registry_inv(s),
        s.terminal_order == seq![id],
        s.records.contains_key(id),
        s.records[id].completion is Some,
        is_stale(s, id, now),
        s.capacity > 0,
    ensures
        status_spec(s, id, s.records[id].correlation, now).1 == Some(expired_status(id)),
{
    let t = pop_terminal(s);
    assert(t.terminal_order =~= Seq::<Seq<char>>::empty());
    law_expired_memory_keeps_most_recent(t, id);
    lemma_expire_inv(t, id);
    let e = expire_spec(t, id);
    assert(purge_spec(e, now) == e);
    assert(purge_spec(s, now) == e);
    let o = t.expired_order.push(id);
    let k: int = if o.len() > s.capacity {
        o.len() - s.capacity
    } else {
        0
    };
    assert(e.expired_order == o.skip(k));
    assert(e.expired_order[e.expired_order.len() - 1] == id);
    assert(e.expired_order.contains(id));
    assert(!e.records.contains_key(id));
}

/// Any terminal record that is younger than the retention period reads as terminal: the
/// purge never expires it, wherever it stands in the terminal order.
pub proof fn law_young_terminal_record_reads_terminal(s: RegistryView, id: Seq<char>, now: i64)
    requires
        registry_inv(s),
        s.records.contains_key(id),
        s.records[id].completion is Some,
        !is_stale(s, id, now),
    ensures
        status_spec(s, id, s.records[id].correlation, now) == (
            purge_spec(s, now),
            Some(record_status(id, s.records[id])),
        ),
        record_status(id, s.records[id]).state == TerminateOwnedOperationState::Terminal,
{
    lemma_purge_frames(s, now);
}

pub open spec fn is_live_terminal(s: RegistryView, k: Seq<char>) -> bool {
    s.records.contains_key(k) && s.records[k].completion is Some
}

pub open spec fn completed_at_of(s: RegistryView, k: Seq<char>) -> i64 {
    s.records[k].completion.unwrap().completed_at
}

/// Every live terminal record is listed in the terminal order.
pub open spec fn terminal_records_listed(s: RegistryView) -> bool {
    forall|k: Seq<char>| #[trigger] is_live_terminal(s, k) ==> s.terminal_order.contains(k)
}

/// The live terminal records listed in the terminal order completed in that order.
pub open spec fn terminal_order_sorted(s: RegistryView) -> bool {
    forall|i: int, j: int|
        0 <= i <= j < s.terminal_order.len() && is_live_terminal(s, #[trigger] s.terminal_order[i])
            && is_live_terminal(s, #[trigger] s.terminal_order[j]) ==> completed_at_of(
            s,
            s.terminal_order[i],
        ) <= completed_at_of(s, s.terminal_order[j])
}

proof fn lemma_pop_keeps_order_facts(s: RegistryView, t: RegistryView)
    requires
        s.terminal_order.len() > 0,
        !is_live_terminal(t, s.terminal_order[0]),
        t.terminal_order == s.terminal_order.drop_first(),
        forall|k: Seq<char>| #[trigger]
            t.records.contains_key(k) ==> s.records.contains_key(k) && t.records[k] == s.records[k],
        terminal_records_listed(s),
        terminal_order_sorted(s),
    ensures
        terminal_records_listed(t),
        terminal_order_sorted(t),
{
    assert forall|k: Seq<char>| #[trigger] is_live_terminal(t, k) implies t.terminal_order.contains(
        k,
    ) by {
        assert(is_live_terminal(s, k));
        let j = choose|j: int| 0 <= j < s.terminal_order.len() && s.terminal_order[j] == k;
        assert(j != 0);
        assert(t.terminal_order[j - 1] == k);
    }
    assert forall|i: int, j: int|
        0 <= i <= j < t.terminal_order.len() && is_live_terminal(t, #[trigger] t.terminal_order[i])
            && is_live_terminal(t, #[trigger] t.terminal_order[j]) implies completed_at_of(
        t,
        t.terminal_order[i],
    ) <= completed_at_of(t, t.terminal_order[j]) by {
        assert(t.terminal_order[i] == s.terminal_order[i + 1]);
        assert(t.terminal_order[j] == s.terminal_order[j + 1]);
        assert(is_live_terminal(s, s.terminal_order[i + 1]));
        assert(is_live_terminal(s, s.terminal_order[j + 1]));
    }
}

/// When terminal records complete in the order in which they became terminal, the purge
/// leaves no terminal record that is as old as the retention period: every stale one has
/// expired.
pub proof fn law_stale_terminal_records_expire(s: RegistryView, now: i64)
    requires
        registry_inv(s),
        terminal_records_listed(s),
        terminal_order_sorted(s),
    ensures
        forall|k: Seq<char>| #[trigger]
            is_live_terminal(purge_spec(s, now), k) ==> !is_stale(purge_spec(s, now), k, now),
    decreases s.terminal_order.len(),
{
    if s.terminal_order.len() == 0 {
        assert forall|k: Seq<char>| #[trigger] is_live_terminal(purge_spec(s, now), k) implies !is_stale(
            purge_spec(s, now),
            k,
            now,
        ) by {
            assert(s.terminal_order.contains(k));
        }
    } else {
        let id = s.terminal_order[0];
        if s.records.contains_key(id) && s.records[id].completion is Some {
            if !is_stale(s, id, now) {
                assert forall|k: Seq<char>| #[trigger] is_live_terminal(purge_spec(s, now), k) implies !is_stale(
                    purge_spec(s, now),
                    k,
                    now,
                ) by {
                    assert(s.terminal_order.contains(k));
                    let j = choose|j: int| 0 <= j < s.terminal_order.len() && s.terminal_order[j] == k;
                    assert(is_live_terminal(s, s.terminal_order[0]));
                    assert(is_live_terminal(s, s.terminal_order[j]));
                }
            } else {
                let t = expire_spec(pop_terminal(s), id);
                lemma_expire_inv(pop_terminal(s), id);
                lemma_expire_frames(pop_terminal(s), id);
                assert(!t.records.contains_key(id));
                lemma_pop_keeps_order_facts(s, t);
                law_stale_terminal_records_expire(t, now);
                assert(purge_spec(s, now) == purge_spec(t, now));
            }
        } else {
            let t = pop_terminal(s);
            lemma_pop_keeps_order_facts(s, t);
            law_stale_terminal_records_expire(t, now);
            assert(purge_spec(s, now) == purge_spec(t, now));
        }
    }
}

/// A status query by identity finds an operation only when the thread, turn and item ids
/// and the process identity that it presents all equal those of the request that reserved
/// the operation; and a live operation is always found by exactly those four values.
pub proof fn law_status_by_identity_requires_every_field(
    s: RegistryView,
    id: Seq<char>,
    thread_id: Seq<char>,
    turn_id: Seq<char>,
    item_id: Seq<char>,
    identity: IdentityView,
    now: i64,
)
    ensures
        ({
            let p = purge_spec(s, now);
            let r = status_by_identity_spec(s, id, thread_id, turn_id, item_id, identity, now);
            &&& r.1 is Some && p.records.contains_key(id) ==> {
                let c = p.records[id].correlation;
                &&& c.thread_id == thread_id
                &&& c.turn_id == turn_id
                &&& c.item_id == item_id
                &&& c.termination.expected_identity == identity
            }
            &&& r.1 is Some && !p.records.contains_key(id) ==> {
                let c = p.expired[id];
                &&& p.expired.contains_key(id)
                &&& c.thread_id == thread_id
                &&& c.turn_id == turn_id
                &&& c.item_id == item_id
                &&& c.termination.expected_identity == identity
                &&& r.1 == Some(expired_status(id))
            }
            &&& p.records.contains_key(id) ==> (r.1 is Some <==> ({
                let c = p.records[id].correlation;
                &&& c.thread_id == thread_id
                &&& c.turn_id == turn_id
                &&& c.item_id == item_id
                &&& c.termination.expected_identity == identity
            }))
        }),
{
}

/// A status query by identity for a live operation answers as a status query with the
/// operation's own correlation would, whenever it presents that correlation's thread,
/// turn and item ids and expected identity.
pub proof fn law_status_by_identity_agrees_with_status(
    s: RegistryView,
    id: Seq<char>,
    now: i64,
)
    requires
        purge_spec(s, now).records.contains_key(id),
    ensures
        ({
            let c = purge_spec(s, now).records[id].correlation;
            status_by_identity_spec(
                s,
                id,
                c.thread_id,
                c.turn_id,
                c.item_id,
                c.termination.expected_identity,
                now,
            ) == status_spec(s, id, c, now)
        }),
{
}

/// A reservation that succeeds leaves a record of the request made at that moment and
/// nothing more: created now, not accepted, with no initial outcome and no completion.
pub proof fn law_reserved_record_is_fresh(
    s: RegistryView,
    id: Seq<char>,
    c: CorrelationView,
    now: i64,
)
    requires
        reserve_spec(s, id, c, now).1 is Reserved,
    ensures
        ({
            let r = reserve_spec(s, id, c, now).0;
            &&& r.records.contains_key(id)
            &&& r.records[id].correlation == c
            &&& r.records[id].created_at == now
            &&& r.records[id].accepted_at is None
            &&& r.records[id].initial_outcome is None
            &&& r.records[id].completion is None
        }),
{
}

/// Accepting a live operation records exactly the time and outcome given and keeps the
/// rest of its record.
pub proof fn law_accept_records_time_and_outcome(
    s: RegistryView,
    id: Seq<char>,
    outcome: TerminateOwnedOutcome,
    now: i64,
)
    requires
        s.records.contains_key(id),
    ensures
        ({
            let r = accept_spec(s, id, outcome, now).records[id];
            &&& accept_spec(s, id, outcome, now).records.contains_key(id)
            &&& r.accepted_at == Some(now)
            &&& r.initial_outcome == Some(outcome)
            &&& r.correlation == s.records[id].correlation
            &&& r.created_at == s.records[id].created_at
            &&& r.completion == s.records[id].completion
        }),
{
}

proof fn lemma_complete_inv(s: RegistryView, id: Seq<char>, c: CompletionView)
    requires
        registry_inv(s),
    ensures
        registry_inv(complete_spec(s, id, c).0),
{
    let t = complete_spec(s, id, c).0;
    assert(t.records.dom() =~= s.records.dom());
}

/// Completing a live operation that has no completion yet publishes exactly the evidence
/// given: the record keeps its correlation, times and outcome and holds that completion,
/// and until the retention period has passed a status query with its correlation
/// reports it as terminal with that completion.
pub proof fn law_complete_publishes_the_given_evidence(
    s: RegistryView,
    id: Seq<char>,
    c: CompletionView,
    now: i64,
)
    requires
        registry_inv(s),
        s.records.contains_key(id),
        s.records[id].completion is None,
        now - c.completed_at < s.retention_seconds,
    ensures
        ({
            let t = complete_spec(s, id, c);
            let r = t.0.records[id];
            let q = status_spec(t.0, id, s.records[id].correlation, now).1;
            &&& t.1
            &&& t.0.records.contains_key(id)
            &&& r.completion == Some(c)
            &&& r.correlation == s.records[id].correlation
            &&& r.created_at == s.records[id].created_at
            &&& r.accepted_at == s.records[id].accepted_at
            &&& r.initial_outcome == s.records[id].initial_outcome
            &&& q is Some
            &&& q.unwrap().completion == Some(c)
            &&& q.unwrap().state == TerminateOwnedOperationState::Terminal
            &&& q.unwrap().created_at == Some(s.records[id].created_at)
            &&& q.unwrap().accepted_at == s.records[id].accepted_at
        }),
{
    let t = complete_spec(s, id, c).0;
    lemma_complete_inv(s, id, c);
    assert(!is_stale(t, id, now));
    law_young_terminal_record_reads_terminal(t, id, now);
}

} // verus!
