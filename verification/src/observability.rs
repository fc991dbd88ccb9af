//! Audit events and operational counters, bounded and free of content.
//!
//! The event schema is closed: it has no field for terminal bytes, commands,
//! grants, signatures or resume tokens. What users supply is stripped of control
//! characters and capped before it is kept.

use std::collections::VecDeque;

use vstd::prelude::*;

use crate::ids::{ServerId, ShellId};
use crate::net::IpAddr;
use crate::text::chars;

verus! {

/// The most audit records that are kept.
pub const DEFAULT_AUDIT_CAPACITY: usize = 4_096;

/// The most characters that are kept of a text that a user supplied.
pub const MAX_METADATA_CHARS: usize = 128;

/// How a client logged in.
#[derive(Debug, Clone, Copy, PartialEq, Eq, Structural)]
pub enum AuthMethod {
    Development,
    ConnectionGrant,
    SshKey,
    Password,
}

/// What was asked of a shell.
#[derive(Debug, Clone, Copy, PartialEq, Eq, Structural)]
pub enum ShellOperation {
    Open,
    Attach,
    Detach,
    Terminate,
}

/// How an upload ended that was not completed.
#[derive(Debug, Clone, Copy, PartialEq, Eq, Structural)]
pub enum UploadOutcome {
    Cancelled,
    TimedOut,
    Failed,
}

/// Why something was refused.
#[derive(Debug, Clone, Copy, PartialEq, Eq, Structural)]
pub enum RejectReason {
    RateLimited,
    Forbidden,
    NotFound,
    InvalidToken,
    /// A token that was once valid and has been superseded: possible theft.
    TokenReplayed,
    LimitExceeded,
    NotRunning,
    InvalidRequest,
    Internal,
}

/// What happened. `S` is the type of a text: `String`, or in contracts the
/// sequence of its characters.
#[derive(Debug, Clone, PartialEq, Eq)]
pub enum AuditEvent<S = String> {
    AuthenticationSucceeded { user: S, source_ip: IpAddr, method: AuthMethod },
    AuthenticationFailed { source_ip: IpAddr, reason: RejectReason },
    ShellOpened { user: S, shell_id: ShellId, account: Option<S>, reused: bool },
    ShellOperationRejected {
        user: S,
        shell_id: Option<ShellId>,
        operation: ShellOperation,
        reason: RejectReason,
    },
    ShellAttached { user: S, shell_id: ShellId },
    ShellDetached { user: S, shell_id: ShellId },
    ShellTerminated { user: S, shell_id: ShellId, exit_code: u32 },
    /// An abandoned shell was reclaimed.
    ShellExpired { user: S, shell_id: ShellId, exit_code: u32 },
    UploadStarted { user: S, shell_id: ShellId, original_name: S, bytes: u64 },
    UploadCompleted {
        user: S,
        shell_id: ShellId,
        stored_basename: S,
        bytes: u64,
        duration_ms: u64,
    },
    UploadEnded { user: S, shell_id: ShellId, outcome: UploadOutcome },
    UploadRejected { user: S, shell_id: Option<ShellId>, reason: RejectReason },
}

/// An event with another function applied to its texts.
pub open spec fn event_map<S, T>(e: AuditEvent<S>, f: spec_fn(S) -> T) -> AuditEvent<T> {
    match e {
        AuditEvent::AuthenticationSucceeded { user, source_ip, method } =>
            AuditEvent::AuthenticationSucceeded { user: f(user), source_ip, method },
        AuditEvent::AuthenticationFailed { source_ip, reason } =>
            AuditEvent::AuthenticationFailed { source_ip, reason },
        AuditEvent::ShellOpened { user, shell_id, account, reused } => AuditEvent::ShellOpened {
            user: f(user),
            shell_id,
            account: match account {
                Some(a) => Some(f(a)),
                None => None,
            },
            reused,
        },
        AuditEvent::ShellOperationRejected { user, shell_id, operation, reason } =>
            AuditEvent::ShellOperationRejected { user: f(user), shell_id, operation, reason },
        AuditEvent::ShellAttached { user, shell_id } => AuditEvent::ShellAttached {
            user: f(user),
            shell_id,
        },
        AuditEvent::ShellDetached { user, shell_id } => AuditEvent::ShellDetached {
            user: f(user),
            shell_id,
        },
        AuditEvent::ShellTerminated { user, shell_id, exit_code } => AuditEvent::ShellTerminated {
            user: f(user),
            shell_id,
            exit_code,
        },
        AuditEvent::ShellExpired { user, shell_id, exit_code } => AuditEvent::ShellExpired {
            user: f(user),
            shell_id,
            exit_code,
        },
        AuditEvent::UploadStarted { user, shell_id, original_name, bytes } =>
            AuditEvent::UploadStarted {
                user: f(user),
                shell_id,
                original_name: f(original_name),
                bytes,
            },
        AuditEvent::UploadCompleted { user, shell_id, stored_basename, bytes, duration_ms } =>
            AuditEvent::UploadCompleted {
                user: f(user),
                shell_id,
                stored_basename: f(stored_basename),
                bytes,
                duration_ms,
            },
        AuditEvent::UploadEnded { user, shell_id, outcome } => AuditEvent::UploadEnded {
            user: f(user),
            shell_id,
            outcome,
        },
        AuditEvent::UploadRejected { user, shell_id, reason } => AuditEvent::UploadRejected {
            user: f(user),
            shell_id,
            reason,
        },
    }
}

impl View for AuditEvent<String> {
    type V = AuditEvent<Seq<char>>;

    open spec fn view(&self) -> AuditEvent<Seq<char>> {
        event_map(*self, |s: String| s@)
    }
}

/// Whether a character is a control code.
pub open spec fn is_control_code(c: char) -> bool {
    (c as u32) < 0x20 || 0x7f <= (c as u32) < 0xa0
}

/// What is kept of a text that a user supplied: its characters that are no
/// control codes, up to the cap.
pub open spec fn safe_text(s: Seq<char>) -> Seq<char> {
    let kept = s.filter(|c: char| !is_control_code(c));
    if kept.len() > MAX_METADATA_CHARS {
        kept.take(MAX_METADATA_CHARS as int)
    } else {
        kept
    }
}

/// Whether a text is fit to be kept.
pub open spec fn is_safe(s: Seq<char>) -> bool {
    &&& s.len() <= MAX_METADATA_CHARS
    &&& forall|i: int| 0 <= i < s.len() ==> !is_control_code(#[trigger] s[i])
}

/// An event as it is kept.
pub open spec fn sanitized(e: AuditEvent<Seq<char>>) -> AuditEvent<Seq<char>> {
    event_map(e, |s: Seq<char>| safe_text(s))
}

fn is_control(c: char) -> (r: bool)
    ensures
        r == is_control_code(c),
{
    let code: u32 = c as u32;
    code < 0x20 || (0x7f <= code && code < 0xa0)
}

/// What is kept of a text that a user supplied.
pub fn safe_metadata(value: &str) -> (r: String)
    ensures
        r@ == safe_text(value@),
{
    let cs: Vec<char> = chars(value);
    let ghost plain = |c: char| !is_control_code(c);
    let mut out: String = String::new();
    let mut kept: usize = 0;
    let mut i: usize = 0;
    assert(cs@.take(0) =~= Seq::empty());
    assert(cs@.take(0).filter(plain) =~= Seq::empty()) by {
        reveal(Seq::filter);
    }
    while i < cs.len() && kept < MAX_METADATA_CHARS
        invariant
            i <= cs.len(),
            cs@ == value@,
            plain == (|c: char| !is_control_code(c)),
            out@ == cs@.take(i as int).filter(plain),
            kept == out@.len(),
            kept <= MAX_METADATA_CHARS,
        decreases cs.len() - i,
    {
        let c: char = cs[i];
        proof {
            reveal(Seq::filter);
            assert(cs@.take(i + 1).drop_last() =~= cs@.take(i as int));
        }
        if !is_control(c) {
            out.push(c);
            kept = kept + 1;
        }
        i = i + 1;
    }
    proof {
        filter_of_prefix(cs@, i as int, plain);
        if i == cs.len() {
            assert(cs@.take(i as int) =~= cs@);
        }
        let whole = cs@.filter(plain);
        if whole.len() > MAX_METADATA_CHARS {
            assert(out@ =~= whole.take(MAX_METADATA_CHARS as int));
        } else {
            assert(out@ =~= whole);
        }
    }
    out
}

/// Filtering a prefix gives a prefix of filtering the whole.
proof fn filter_of_prefix(s: Seq<char>, n: int, p: spec_fn(char) -> bool)
    requires
        0 <= n <= s.len(),
    ensures
        s.take(n).filter(p).len() <= s.filter(p).len(),
        s.take(n).filter(p) == s.filter(p).take(s.take(n).filter(p).len() as int),
    decreases s.len() - n,
{
    reveal(Seq::filter);
    if n == s.len() {
        assert(s.take(n) =~= s);
        assert(s.filter(p).take(s.filter(p).len() as int) =~= s.filter(p));
    } else {
        let less = s.take(n).filter(p);
        let more = s.take(n + 1).filter(p);
        filter_of_prefix(s, n + 1, p);
        assert(s.take(n + 1).drop_last() =~= s.take(n));
        assert(less =~= more.take(less.len() as int));
        assert(less =~= s.filter(p).take(less.len() as int));
    }
}

/// What is kept is fit to be kept: no control codes, and no more characters than
/// the cap.
pub proof fn safe_text_is_safe(s: Seq<char>)
    ensures
        is_safe(safe_text(s)),
{
    let plain = |c: char| !is_control_code(c);
    s.filter_lemma(plain);
    assert forall|i: int| 0 <= i < safe_text(s).len() implies !is_control_code(
        #[trigger] safe_text(s)[i],
    ) by {
        assert(plain(s.filter(plain)[i]));
    }
}

/// What is fit to be kept is kept as it is, so that keeping twice changes
/// nothing.
pub proof fn safe_text_is_kept(s: Seq<char>)
    requires
        is_safe(s),
    ensures
        safe_text(s) == s,
    decreases s.len(),
{
    let plain = |c: char| !is_control_code(c);
    reveal(Seq::filter);
    if s.len() > 0 {
        let t = s.drop_last();
        assert forall|i: int| 0 <= i < t.len() implies !is_control_code(#[trigger] t[i]) by {
            assert(t[i] == s[i]);
        }
        safe_text_is_kept(t);
        assert(t.filter(plain) == t);
        assert(plain(s.last()));
        assert(s.filter(plain) =~= s);
    } else {
        assert(s.filter(plain) =~= s);
    }
}

/// Strips and caps the texts of an event.
pub fn sanitize_event(event: AuditEvent) -> (r: AuditEvent)
    ensures
        r@ == sanitized(event@),
{
    match event {
        AuditEvent::AuthenticationSucceeded { user, source_ip, method } =>
            AuditEvent::AuthenticationSucceeded {
                user: safe_metadata(user.as_str()),
                source_ip,
                method,
            },
        AuditEvent::AuthenticationFailed { source_ip, reason } =>
            AuditEvent::AuthenticationFailed { source_ip, reason },
        AuditEvent::ShellOpened { user, shell_id, account, reused } => AuditEvent::ShellOpened {
            user: safe_metadata(user.as_str()),
            shell_id,
            account: match account {
                Some(a) => Some(safe_metadata(a.as_str())),
                None => None,
            },
            reused,
        },
        AuditEvent::ShellOperationRejected { user, shell_id, operation, reason } =>
            AuditEvent::ShellOperationRejected {
                user: safe_metadata(user.as_str()),
                shell_id,
                operation,
                reason,
            },
        AuditEvent::ShellAttached { user, shell_id } => AuditEvent::ShellAttached {
            user: safe_metadata(user.as_str()),
            shell_id,
        },
        AuditEvent::ShellDetached { user, shell_id } => AuditEvent::ShellDetached {
            user: safe_metadata(user.as_str()),
            shell_id,
        },
        AuditEvent::ShellTerminated { user, shell_id, exit_code } => AuditEvent::ShellTerminated {
            user: safe_metadata(user.as_str()),
            shell_id,
            exit_code,
        },
        AuditEvent::ShellExpired { user, shell_id, exit_code } => AuditEvent::ShellExpired {
            user: safe_metadata(user.as_str()),
            shell_id,
            exit_code,
        },
        AuditEvent::UploadStarted { user, shell_id, original_name, bytes } =>
            AuditEvent::UploadStarted {
                user: safe_metadata(user.as_str()),
                shell_id,
                original_name: safe_metadata(original_name.as_str()),
                bytes,
            },
        AuditEvent::UploadCompleted { user, shell_id, stored_basename, bytes, duration_ms } =>
            AuditEvent::UploadCompleted {
                user: safe_metadata(user.as_str()),
                shell_id,
                stored_basename: safe_metadata(stored_basename.as_str()),
                bytes,
                duration_ms,
            },
        AuditEvent::UploadEnded { user, shell_id, outcome } => AuditEvent::UploadEnded {
            user: safe_metadata(user.as_str()),
            shell_id,
            outcome,
        },
        AuditEvent::UploadRejected { user, shell_id, reason } => AuditEvent::UploadRejected {
            user: safe_metadata(user.as_str()),
            shell_id,
            reason,
        },
    }
}

/// A copy of an event.
pub fn copy_event(event: &AuditEvent) -> (r: AuditEvent)
    ensures
        r@ == event@,
{
    match event {
        AuditEvent::AuthenticationSucceeded { user, source_ip, method } =>
            AuditEvent::AuthenticationSucceeded {
                user: user.clone(),
                source_ip: *source_ip,
                method: *method,
            },
        AuditEvent::AuthenticationFailed { source_ip, reason } =>
            AuditEvent::AuthenticationFailed { source_ip: *source_ip, reason: *reason },
        AuditEvent::ShellOpened { user, shell_id, account, reused } => AuditEvent::ShellOpened {
            user: user.clone(),
            shell_id: *shell_id,
            account: match account {
                Some(a) => Some(a.clone()),
                None => None,
            },
            reused: *reused,
        },
        AuditEvent::ShellOperationRejected { user, shell_id, operation, reason } =>
            AuditEvent::ShellOperationRejected {
                user: user.clone(),
                shell_id: *shell_id,
                operation: *operation,
                reason: *reason,
            },
        AuditEvent::ShellAttached { user, shell_id } => AuditEvent::ShellAttached {
            user: user.clone(),
            shell_id: *shell_id,
        },
        AuditEvent::ShellDetached { user, shell_id } => AuditEvent::ShellDetached {
            user: user.clone(),
            shell_id: *shell_id,
        },
        AuditEvent::ShellTerminated { user, shell_id, exit_code } => AuditEvent::ShellTerminated {
            user: user.clone(),
            shell_id: *shell_id,
            exit_code: *exit_code,
        },
        AuditEvent::ShellExpired { user, shell_id, exit_code } => AuditEvent::ShellExpired {
            user: user.clone(),
            shell_id: *shell_id,
            exit_code: *exit_code,
        },
        AuditEvent::UploadStarted { user, shell_id, original_name, bytes } =>
            AuditEvent::UploadStarted {
                user: user.clone(),
                shell_id: *shell_id,
                original_name: original_name.clone(),
                bytes: *bytes,
            },
        AuditEvent::UploadCompleted { user, shell_id, stored_basename, bytes, duration_ms } =>
            AuditEvent::UploadCompleted {
                user: user.clone(),
                shell_id: *shell_id,
                stored_basename: stored_basename.clone(),
                bytes: *bytes,
                duration_ms: *duration_ms,
            },
        AuditEvent::UploadEnded { user, shell_id, outcome } => AuditEvent::UploadEnded {
            user: user.clone(),
            shell_id: *shell_id,
            outcome: *outcome,
        },
        AuditEvent::UploadRejected { user, shell_id, reason } => AuditEvent::UploadRejected {
            user: user.clone(),
            shell_id: *shell_id,
            reason: *reason,
        },
    }
}

/// Counts of what happened, without anything that users supplied.
#[derive(Debug, Clone, Copy, PartialEq, Eq, Structural)]
pub struct MetricsSnapshot {
    pub authentication_succeeded: u64,
    pub authentication_failed: u64,
    pub authentication_rate_limited: u64,
    pub shells_opened: u64,
    pub shell_opens_reused: u64,
    pub shell_operations_rejected: u64,
    pub attachments_opened: u64,
    pub attachments_detached: u64,
    pub shells_terminated: u64,
    pub limit_hits: u64,
    pub token_replays_detected: u64,
    pub shells_expired: u64,
    pub uploads_active: u64,
    pub uploads_completed: u64,
    pub uploads_cancelled: u64,
    pub uploads_timed_out: u64,
    pub uploads_failed: u64,
    pub uploads_rejected: u64,
    pub upload_bytes_completed: u64,
}

/// No counts at all.
pub open spec fn no_counts() -> MetricsSnapshot {
    MetricsSnapshot {
        authentication_succeeded: 0,
        authentication_failed: 0,
        authentication_rate_limited: 0,
        shells_opened: 0,
        shell_opens_reused: 0,
        shell_operations_rejected: 0,
        attachments_opened: 0,
        attachments_detached: 0,
        shells_terminated: 0,
        limit_hits: 0,
        token_replays_detected: 0,
        shells_expired: 0,
        uploads_active: 0,
        uploads_completed: 0,
        uploads_cancelled: 0,
        uploads_timed_out: 0,
        uploads_failed: 0,
        uploads_rejected: 0,
        upload_bytes_completed: 0,
    }
}

impl Default for MetricsSnapshot {
    fn default() -> (r: MetricsSnapshot)
        ensures
            r == no_counts(),
    {
        MetricsSnapshot {
            authentication_succeeded: 0,
            authentication_failed: 0,
            authentication_rate_limited: 0,
            shells_opened: 0,
            shell_opens_reused: 0,
            shell_operations_rejected: 0,
            attachments_opened: 0,
            attachments_detached: 0,
            shells_terminated: 0,
            limit_hits: 0,
            token_replays_detected: 0,
            shells_expired: 0,
            uploads_active: 0,
            uploads_completed: 0,
            uploads_cancelled: 0,
            uploads_timed_out: 0,
            uploads_failed: 0,
            uploads_rejected: 0,
            upload_bytes_completed: 0,
        }
    }
}

/// A counter that went up, modulo its width.
pub open spec fn up(counter: u64, by: u64) -> u64 {
    if counter + by > u64::MAX {
        (counter + by - 0x1_0000_0000_0000_0000) as u64
    } else {
        (counter + by) as u64
    }
}

/// A counter that went up by one where a condition holds.
pub open spec fn up_if(counter: u64, condition: bool) -> u64 {
    if condition {
        up(counter, 1)
    } else {
        counter
    }
}

/// A counter that went down by one, but not below zero.
pub open spec fn down(counter: u64) -> u64 {
    if counter == 0 {
        0
    } else {
        (counter - 1) as u64
    }
}

/// The counts after an event.
pub open spec fn counted<S>(m: MetricsSnapshot, e: AuditEvent<S>) -> MetricsSnapshot {
    match e {
        AuditEvent::AuthenticationSucceeded { .. } => MetricsSnapshot {
            authentication_succeeded: up(m.authentication_succeeded, 1),
            ..m
        },
        AuditEvent::AuthenticationFailed { reason, .. } => MetricsSnapshot {
            authentication_failed: up(m.authentication_failed, 1),
            authentication_rate_limited: up_if(
                m.authentication_rate_limited,
                reason == RejectReason::RateLimited,
            ),
            ..m
        },
        AuditEvent::ShellOpened { reused, .. } => MetricsSnapshot {
            shell_opens_reused: up_if(m.shell_opens_reused, reused),
            shells_opened: up_if(m.shells_opened, !reused),
            ..m
        },
        AuditEvent::ShellOperationRejected { reason, .. } => MetricsSnapshot {
            shell_operations_rejected: up(m.shell_operations_rejected, 1),
            limit_hits: up_if(m.limit_hits, reason == RejectReason::LimitExceeded),
            token_replays_detected: up_if(
                m.token_replays_detected,
                reason == RejectReason::TokenReplayed,
            ),
            ..m
        },
        AuditEvent::ShellAttached { .. } => MetricsSnapshot {
            attachments_opened: up(m.attachments_opened, 1),
            ..m
        },
        AuditEvent::ShellDetached { .. } => MetricsSnapshot {
            attachments_detached: up(m.attachments_detached, 1),
            ..m
        },
        AuditEvent::ShellTerminated { .. } => MetricsSnapshot {
            shells_terminated: up(m.shells_terminated, 1),
            ..m
        },
        AuditEvent::ShellExpired { .. } => MetricsSnapshot {
            shells_expired: up(m.shells_expired, 1),
            ..m
        },
        AuditEvent::UploadStarted { .. } => MetricsSnapshot {
            uploads_active: up(m.uploads_active, 1),
            ..m
        },
        AuditEvent::UploadCompleted { bytes, .. } => MetricsSnapshot {
            uploads_active: down(m.uploads_active),
            uploads_completed: up(m.uploads_completed, 1),
            upload_bytes_completed: up(m.upload_bytes_completed, bytes),
            ..m
        },
        AuditEvent::UploadEnded { outcome, .. } => MetricsSnapshot {
            uploads_active: down(m.uploads_active),
            uploads_cancelled: up_if(m.uploads_cancelled, outcome == UploadOutcome::Cancelled),
            uploads_timed_out: up_if(m.uploads_timed_out, outcome == UploadOutcome::TimedOut),
            uploads_failed: up_if(m.uploads_failed, outcome == UploadOutcome::Failed),
            ..m
        },
        AuditEvent::UploadRejected { reason, .. } => MetricsSnapshot {
            uploads_rejected: up(m.uploads_rejected, 1),
            limit_hits: up_if(m.limit_hits, reason == RejectReason::LimitExceeded),
            ..m
        },
    }
}

fn bump(counter: &mut u64, by: u64)
    ensures
        *final(counter) == up(*old(counter), by),
{
    *counter = counter.wrapping_add(by);
}

fn drop_one(counter: &mut u64)
    ensures
        *final(counter) == down(*old(counter)),
{
    *counter = counter.saturating_sub(1);
}

/// One kept event.
#[derive(Debug, Clone, PartialEq, Eq)]
pub struct AuditRecord {
    pub timestamp_ms: i64,
    pub server_id: ServerId,
    pub event: AuditEvent,
}

/// What an [`AuditRecord`] holds.
pub struct RecordView {
    pub timestamp_ms: i64,
    pub server_id: ServerId,
    pub event: AuditEvent<Seq<char>>,
}

impl View for AuditRecord {
    type V = RecordView;

    open spec fn view(&self) -> RecordView {
        RecordView {
            timestamp_ms: self.timestamp_ms,
            server_id: self.server_id,
            event: self.event@,
        }
    }
}

/// Records as what they hold.
pub open spec fn record_views(records: Seq<AuditRecord>) -> Seq<RecordView> {
    Seq::new(records.len(), |i: int| records[i]@)
}

/// Keeps the latest audit events and counts all of them.
pub struct Observability {
    server_id: ServerId,
    capacity: usize,
    records: VecDeque<AuditRecord>,
    counters: MetricsSnapshot,
}

/// What an [`Observability`] holds.
pub struct ObservabilityView {
    pub server_id: ServerId,
    pub capacity: nat,
    pub records: Seq<RecordView>,
    pub metrics: MetricsSnapshot,
}

impl ObservabilityView {
    /// What is held once an event was recorded: it is counted, and it is the
    /// latest of the events kept, for which the oldest makes room.
    pub open spec fn recorded(self, event: AuditEvent<Seq<char>>, now_ms: i64) -> ObservabilityView {
        let record = RecordView {
            timestamp_ms: now_ms,
            server_id: self.server_id,
            event: sanitized(event),
        };
        ObservabilityView {
            metrics: counted(self.metrics, event),
            records: if self.capacity == 0 {
                self.records
            } else if self.records.len() == self.capacity {
                self.records.drop_first().push(record)
            } else {
                self.records.push(record)
            },
            ..self
        }
    }

    /// Whether the bounds hold, and every text that is kept is fit to be.
    pub open spec fn bounded(self) -> bool {
        &&& self.capacity <= DEFAULT_AUDIT_CAPACITY
        &&& self.records.len() <= self.capacity
        &&& forall|i: int|
            0 <= i < self.records.len() ==> sanitized((#[trigger] self.records[i]).event)
                == self.records[i].event
    }
}

impl View for Observability {
    type V = ObservabilityView;

    closed spec fn view(&self) -> ObservabilityView {
        ObservabilityView {
            server_id: self.server_id,
            capacity: self.capacity as nat,
            records: record_views(self.records@),
            metrics: self.counters,
        }
    }
}

/// Stripping and capping an event twice is the same as once.
pub proof fn sanitized_twice(e: AuditEvent<Seq<char>>)
    ensures
        sanitized(sanitized(e)) == sanitized(e),
{
    assert forall|s: Seq<char>| #[trigger] safe_text(safe_text(s)) == safe_text(s) by {
        safe_text_is_safe(s);
        safe_text_is_kept(safe_text(s));
    }
}

/// Recording keeps the bounds.
pub proof fn recording_stays_bounded(o: ObservabilityView, event: AuditEvent<Seq<char>>, now_ms: i64)
    requires
        o.bounded(),
    ensures
        o.recorded(event, now_ms).bounded(),
{
    sanitized_twice(event);
    let after = o.recorded(event, now_ms);
    assert forall|i: int| 0 <= i < after.records.len() implies sanitized(
        (#[trigger] after.records[i]).event,
    ) == after.records[i].event by {
        if o.capacity > 0 {
            if o.records.len() == o.capacity {
                if i < o.records.len() - 1 {
                    assert(after.records[i] == o.records[i + 1]);
                }
            } else if i < o.records.len() {
                assert(after.records[i] == o.records[i]);
            }
        } else {
            assert(after.records[i] == o.records[i]);
        }
    }
}

impl Observability {
    /// Keeps at most `audit_capacity` events, and never more than the ceiling.
    pub fn new(server_id: ServerId, audit_capacity: usize) -> (r: Observability)
        ensures
            r@ == (ObservabilityView {
                server_id,
                capacity: if audit_capacity > DEFAULT_AUDIT_CAPACITY {
                    DEFAULT_AUDIT_CAPACITY as nat
                } else {
                    audit_capacity as nat
                },
                records: Seq::empty(),
                metrics: no_counts(),
            }),
            r@.bounded(),
    {
        let capacity: usize = if audit_capacity > DEFAULT_AUDIT_CAPACITY {
            DEFAULT_AUDIT_CAPACITY
        } else {
            audit_capacity
        };
        let r = Observability {
            server_id,
            capacity,
            records: VecDeque::new(),
            counters: MetricsSnapshot::default(),
        };
        assert(r@.records =~= Seq::empty());
        r
    }

    /// The most events that are kept.
    pub fn capacity(&self) -> (r: usize)
        ensures
            r == self@.capacity,
    {
        self.capacity
    }

    /// Records an event at a time.
    pub fn record(&mut self, event: AuditEvent, now_ms: i64)
        requires
            old(self)@.bounded(),
        ensures
            final(self)@ == old(self)@.recorded(event@, now_ms),
            final(self)@.bounded(),
    {
        proof {
            recording_stays_bounded(self@, event@, now_ms);
        }
        let ghost whole = event@;
        let event: AuditEvent = sanitize_event(event);
        self.increment(&event);
        if self.capacity == 0 {
            return;
        }
        let ghost kept = self.records@;
        let record = AuditRecord { timestamp_ms: now_ms, server_id: self.server_id, event };
        let ghost added = record@;
        if self.records.len() == self.capacity {
            let _ = self.records.pop_front();
            assert(record_views(self.records@) =~= record_views(kept).drop_first());
        }
        let ghost room = self.records@;
        self.records.push_back(record);
        assert(record_views(self.records@) =~= record_views(room).push(added));
    }

    /// The events that are kept, oldest first.
    pub fn audit_events(&self) -> (r: Vec<AuditRecord>)
        ensures
            record_views(r@) == self@.records,
    {
        let mut out: Vec<AuditRecord> = Vec::new();
        let mut i: usize = 0;
        while i < self.records.len()
            invariant
                i <= self.records@.len(),
                record_views(out@) == record_views(self.records@).take(i as int),
            decreases self.records@.len() - i,
        {
            let record: &AuditRecord = &self.records[i];
            let copy = AuditRecord {
                timestamp_ms: record.timestamp_ms,
                server_id: record.server_id,
                event: copy_event(&record.event),
            };
            let ghost before = out@;
            out.push(copy);
            i = i + 1;
            assert(record_views(out@) =~= record_views(before).push(copy@));
            assert(record_views(out@) =~= record_views(self.records@).take(i as int));
        }
        assert(record_views(self.records@).take(i as int) =~= record_views(self.records@));
        out
    }

    /// The counts so far.
    pub fn metrics(&self) -> (r: MetricsSnapshot)
        ensures
            r == self@.metrics,
    {
        self.counters
    }

    /// Counts an event.
    fn increment(&mut self, event: &AuditEvent)
        ensures
            final(self).counters == counted(old(self).counters, event@),
            final(self).records == old(self).records,
            final(self).capacity == old(self).capacity,
            final(self).server_id == old(self).server_id,
    {
        match event {
            AuditEvent::AuthenticationSucceeded { .. } => {
                bump(&mut self.counters.authentication_succeeded, 1);
            },
            AuditEvent::AuthenticationFailed { reason, .. } => {
                bump(&mut self.counters.authentication_failed, 1);
                if *reason == RejectReason::RateLimited {
                    bump(&mut self.counters.authentication_rate_limited, 1);
                }
            },
            AuditEvent::ShellOpened { reused, .. } => {
                if *reused {
                    bump(&mut self.counters.shell_opens_reused, 1);
                } else {
                    bump(&mut self.counters.shells_opened, 1);
                }
            },
            AuditEvent::ShellOperationRejected { reason, .. } => {
                bump(&mut self.counters.shell_operations_rejected, 1);
                if *reason == RejectReason::LimitExceeded {
                    bump(&mut self.counters.limit_hits, 1);
                }
                if *reason == RejectReason::TokenReplayed {
                    bump(&mut self.counters.token_replays_detected, 1);
                }
            },
            AuditEvent::ShellAttached { .. } => {
                bump(&mut self.counters.attachments_opened, 1);
            },
            AuditEvent::ShellDetached { .. } => {
                bump(&mut self.counters.attachments_detached, 1);
            },
            AuditEvent::ShellTerminated { .. } => {
                bump(&mut self.counters.shells_terminated, 1);
            },
            AuditEvent::ShellExpired { .. } => {
                bump(&mut self.counters.shells_expired, 1);
            },
            AuditEvent::UploadStarted { .. } => {
                bump(&mut self.counters.uploads_active, 1);
            },
            AuditEvent::UploadCompleted { bytes, .. } => {
                drop_one(&mut self.counters.uploads_active);
                bump(&mut self.counters.uploads_completed, 1);
                bump(&mut self.counters.upload_bytes_completed, *bytes);
            },
            AuditEvent::UploadEnded { outcome, .. } => {
                drop_one(&mut self.counters.uploads_active);
                match outcome {
                    UploadOutcome::Cancelled => bump(&mut self.counters.uploads_cancelled, 1),
                    UploadOutcome::TimedOut => bump(&mut self.counters.uploads_timed_out, 1),
                    UploadOutcome::Failed => bump(&mut self.counters.uploads_failed, 1),
                }
            },
            AuditEvent::UploadRejected { reason, .. } => {
                bump(&mut self.counters.uploads_rejected, 1);
                if *reason == RejectReason::LimitExceeded {
                    bump(&mut self.counters.limit_hits, 1);
                }
            },
        }
    }
}

/// Counting does not depend on anything that users supplied.
pub proof fn counts_ignore_texts(
    m: MetricsSnapshot,
    e: AuditEvent<Seq<char>>,
    f: spec_fn(Seq<char>) -> Seq<char>,
)
    ensures
        counted(m, event_map(e, f)) == counted(m, e),
{
}

} // verus!
