//! Laws of what is recorded of the things that happen.

use vstd::prelude::*;

use crate::ids::ServerId;
use crate::observability::{
    copy_event, safe_metadata, sanitize_event, AuditEvent, AuditRecord, MetricsSnapshot, Observability, RejectReason,
    UploadOutcome,
};

verus! {

/// What is kept of a text: its characters but the control codes, and of those at most the
/// first hundred and twenty-eight.
pub open spec fn text_kept(before: Seq<char>, after: Seq<char>) -> bool {
    let plain = before.filter(
        |c: char| !((c as u32) < 0x20 || 0x7f <= (c as u32) < 0xa0),
    );
    after == if plain.len() > 128 {
        plain.take(128)
    } else {
        plain
    }
}

/// Whether an event is kept with all it says, its texts as they are kept.
pub open spec fn event_kept(before: AuditEvent, after: AuditEvent) -> bool {
    match (before, after) {
        (
            AuditEvent::AuthenticationSucceeded { user, source_ip, method },
            AuditEvent::AuthenticationSucceeded { user: u, source_ip: s, method: m },
        ) => text_kept(user@, u@) && source_ip == s && method == m,
        (
            AuditEvent::AuthenticationFailed { source_ip, reason },
            AuditEvent::AuthenticationFailed { source_ip: s, reason: r },
        ) => source_ip == s && reason == r,
        (
            AuditEvent::ShellOpened { user, shell_id, account, reused },
            AuditEvent::ShellOpened { user: u, shell_id: id, account: a, reused: r },
        ) => text_kept(user@, u@) && shell_id == id && reused == r && match (account, a) {
            (Some(x), Some(y)) => text_kept(x@, y@),
            (None, None) => true,
            _ => false,
        },
        (
            AuditEvent::ShellOperationRejected { user, shell_id, operation, reason },
            AuditEvent::ShellOperationRejected { user: u, shell_id: id, operation: o, reason: r },
        ) => text_kept(user@, u@) && shell_id == id && operation == o && reason == r,
        (
            AuditEvent::ShellAttached { user, shell_id },
            AuditEvent::ShellAttached { user: u, shell_id: id },
        ) => text_kept(user@, u@) && shell_id == id,
        (
            AuditEvent::ShellDetached { user, shell_id },
            AuditEvent::ShellDetached { user: u, shell_id: id },
        ) => text_kept(user@, u@) && shell_id == id,
        (
            AuditEvent::ShellTerminated { user, shell_id, exit_code },
            AuditEvent::ShellTerminated { user: u, shell_id: id, exit_code: e },
        ) => text_kept(user@, u@) && shell_id == id && exit_code == e,
        (
            AuditEvent::ShellExpired { user, shell_id, exit_code },
            AuditEvent::ShellExpired { user: u, shell_id: id, exit_code: e },
        ) => text_kept(user@, u@) && shell_id == id && exit_code == e,
        (
            AuditEvent::UploadStarted { user, shell_id, original_name, bytes },
            AuditEvent::UploadStarted { user: u, shell_id: id, original_name: n, bytes: b },
        ) => text_kept(user@, u@) && shell_id == id && text_kept(original_name@, n@) && bytes == b,
        (
            AuditEvent::UploadCompleted { user, shell_id, stored_basename, bytes, duration_ms },
            AuditEvent::UploadCompleted {
                user: u,
                shell_id: id,
                stored_basename: n,
                bytes: b,
                duration_ms: d,
            },
        ) => text_kept(user@, u@) && shell_id == id && text_kept(stored_basename@, n@) && bytes == b
            && duration_ms == d,
        (
            AuditEvent::UploadEnded { user, shell_id, outcome },
            AuditEvent::UploadEnded { user: u, shell_id: id, outcome: o },
        ) => text_kept(user@, u@) && shell_id == id && outcome == o,
        (
            AuditEvent::UploadRejected { user, shell_id, reason },
            AuditEvent::UploadRejected { user: u, shell_id: id, reason: r },
        ) => text_kept(user@, u@) && shell_id == id && reason == r,
        _ => false,
    }
}

proof fn same_filter(s: Seq<char>)
    ensures
        text_kept(s, crate::observability::safe_text(s)),
{
    let here = |c: char| !((c as u32) < 0x20 || 0x7f <= (c as u32) < 0xa0);
    let there = |c: char| !crate::observability::is_control_code(c);
    assert(here =~= there);
}

proof fn same_event(before: AuditEvent, after: AuditEvent)
    requires
        after@ == crate::observability::sanitized(before@),
    ensures
        event_kept(before, after),
{
    assert forall|s: Seq<char>| text_kept(s, #[trigger] crate::observability::safe_text(s)) by {
        same_filter(s);
    }
}

/// A counter that went up by one; the last number is followed by zero.
pub open spec fn one_more(counter: u64) -> u64 {
    if counter == 0xffff_ffff_ffff_ffff {
        0
    } else {
        (counter + 1) as u64
    }
}

/// A counter that went down by one, but not below zero.
pub open spec fn one_less(counter: u64) -> u64 {
    if counter == 0 {
        0
    } else {
        (counter - 1) as u64
    }
}

/// A log starts empty, with all counts at zero, and never keeps more than four thousand
/// and ninety-six events.
pub proof fn logs_start_empty(
    server_id: ServerId,
    wanted: usize,
    log: Observability,
    capacity: usize,
    events: Vec<AuditRecord>,
    counts: MetricsSnapshot,
)
    requires
        call_ensures(Observability::new, (server_id, wanted), log),
        call_ensures(Observability::capacity, (&log,), capacity),
        call_ensures(Observability::audit_events, (&log,), events),
        call_ensures(Observability::metrics, (&log,), counts),
    ensures
        wanted <= 4_096 ==> capacity == wanted,
        wanted > 4_096 ==> capacity == 4_096,
        events@.len() == 0,
        log@.server_id == server_id,
        counts == (MetricsSnapshot {
            authentication_succeeded: 0,
            authentication_failed: 0,
            authentication_rate_limited: 0,
            shells_opened: 0,
            shell_opens_reused: 0,
            shell_operations_rejected: 0,
            attachments_opened: 0,
            attachments_detached: 0,
            shells_terminated: 0,
            limit_hits: 0,
            token_replays_detected: 0,
            shells_expired: 0,
            uploads_active: 0,
            uploads_completed: 0,
            uploads_cancelled: 0,
            uploads_timed_out: 0,
            uploads_failed: 0,
            uploads_rejected: 0,
            upload_bytes_completed: 0,
        }),
{
    assert(events@.len() == crate::observability::record_views(events@).len());
}

/// What is recorded is the last of the events that are kept, with its time and all it
/// says; the others stay as they are, but that the oldest makes room in a full log.
pub proof fn recorded_events_are_kept(
    log: &mut Observability,
    event: AuditEvent,
    now_ms: i64,
    before: Vec<AuditRecord>,
    after: Vec<AuditRecord>,
)
    requires
        call_ensures(Observability::audit_events, (old(log),), before),
        call_ensures(Observability::record, (log, event, now_ms), ()),
        call_ensures(Observability::audit_events, (final(log),), after),
    ensures
        final(log)@.capacity == old(log)@.capacity,
        final(log)@.server_id == old(log)@.server_id,
        old(log)@.capacity == 0 ==> after@.len() == before@.len(),
        old(log)@.capacity > 0 ==> {
            &&& after@.len() > 0
            &&& after@.last().timestamp_ms == now_ms
            &&& after@.last().server_id == old(log)@.server_id
            &&& event_kept(event, after@.last().event)
        },
        old(log)@.capacity > 0 && before@.len() != old(log)@.capacity ==> {
            &&& after@.len() == before@.len() + 1
            &&& forall|i: int|
                0 <= i < before@.len() ==> (#[trigger] after@[i])@.event == before@[i]@.event
                    && after@[i].timestamp_ms == before@[i].timestamp_ms
        },
        old(log)@.capacity > 0 && before@.len() == old(log)@.capacity ==> {
            &&& after@.len() == before@.len()
            &&& forall|i: int|
                0 <= i < before@.len() - 1 ==> (#[trigger] after@[i])@.event == before@[i
                    + 1]@.event && after@[i].timestamp_ms == before@[i + 1].timestamp_ms
        },
{
    let was = crate::observability::record_views(before@);
    let is = crate::observability::record_views(after@);
    assert(was == old(log)@.records);
    assert(is == final(log)@.records);
    assert(was.len() == before@.len());
    assert(is.len() == after@.len());
    assert forall|i: int| 0 <= i < after@.len() implies is[i] == (#[trigger] after@[i])@ by {}
    assert forall|i: int| 0 <= i < before@.len() implies was[i] == (#[trigger] before@[i])@ by {}
    if old(log)@.capacity > 0 {
        let last = after@.len() - 1;
        assert(is[last] == after@[last]@);
        assert(is.last() == is[last]);
        same_event(event, after@[last].event);
    }
}

/// Every event is counted, kept or not, and counts as what it is alone.
pub proof fn events_are_counted(
    log: &mut Observability,
    event: AuditEvent,
    now_ms: i64,
    before: MetricsSnapshot,
    after: MetricsSnapshot,
)
    requires
        call_ensures(Observability::metrics, (old(log),), before),
        call_ensures(Observability::record, (log, event, now_ms), ()),
        call_ensures(Observability::metrics, (final(log),), after),
    ensures
        event is AuthenticationSucceeded ==> after == (MetricsSnapshot {
            authentication_succeeded: one_more(before.authentication_succeeded),
            ..before
        }),
        event matches AuditEvent::AuthenticationFailed { reason, .. } ==> after == (
        MetricsSnapshot {
            authentication_failed: one_more(before.authentication_failed),
            authentication_rate_limited: if reason == RejectReason::RateLimited {
                one_more(before.authentication_rate_limited)
            } else {
                before.authentication_rate_limited
            },
            ..before
        }),
        event matches AuditEvent::ShellOpened { reused: true, .. } ==> after == (MetricsSnapshot {
            shell_opens_reused: one_more(before.shell_opens_reused),
            ..before
        }),
        event matches AuditEvent::ShellOpened { reused: false, .. } ==> after == (MetricsSnapshot {
            shells_opened: one_more(before.shells_opened),
            ..before
        }),
        event matches AuditEvent::ShellOperationRejected { reason, .. } ==> after == (
        MetricsSnapshot {
            shell_operations_rejected: one_more(before.shell_operations_rejected),
            limit_hits: if reason == RejectReason::LimitExceeded {
                one_more(before.limit_hits)
            } else {
                before.limit_hits
            },
            token_replays_detected: if reason == RejectReason::TokenReplayed {
                one_more(before.token_replays_detected)
            } else {
                before.token_replays_detected
            },
            ..before
        }),
        event is ShellAttached ==> after == (MetricsSnapshot {
            attachments_opened: one_more(before.attachments_opened),
            ..before
        }),
        event is ShellDetached ==> after == (MetricsSnapshot {
            attachments_detached: one_more(before.attachments_detached),
            ..before
        }),
        event is ShellTerminated ==> after == (MetricsSnapshot {
            shells_terminated: one_more(before.shells_terminated),
            ..before
        }),
        event is ShellExpired ==> after == (MetricsSnapshot {
            shells_expired: one_more(before.shells_expired),
            ..before
        }),
        event is UploadStarted ==> after == (MetricsSnapshot {
            uploads_active: one_more(before.uploads_active),
            ..before
        }),
        event matches AuditEvent::UploadCompleted { bytes, .. } ==> {
            &&& after.upload_bytes_completed as int == (before.upload_bytes_completed + bytes)
                % 0x1_0000_0000_0000_0000
            &&& after == (MetricsSnapshot {
                uploads_active: one_less(before.uploads_active),
                uploads_completed: one_more(before.uploads_completed),
                upload_bytes_completed: after.upload_bytes_completed,
                ..before
            })
        },
        event matches AuditEvent::UploadEnded { outcome: UploadOutcome::Cancelled, .. } ==> after
            == (MetricsSnapshot {
            uploads_active: one_less(before.uploads_active),
            uploads_cancelled: one_more(before.uploads_cancelled),
            ..before
        }),
        event matches AuditEvent::UploadEnded { outcome: UploadOutcome::TimedOut, .. } ==> after
            == (MetricsSnapshot {
            uploads_active: one_less(before.uploads_active),
            uploads_timed_out: one_more(before.uploads_timed_out),
            ..before
        }),
        event matches AuditEvent::UploadEnded { outcome: UploadOutcome::Failed, .. } ==> after == (
        MetricsSnapshot {
            uploads_active: one_less(before.uploads_active),
            uploads_failed: one_more(before.uploads_failed),
            ..before
        }),
        event matches AuditEvent::UploadRejected { reason, .. } ==> after == (MetricsSnapshot {
            uploads_rejected: one_more(before.uploads_rejected),
            limit_hits: if reason == RejectReason::LimitExceeded {
                one_more(before.limit_hits)
            } else {
                before.limit_hits
            },
            ..before
        }),
{
}

/// Of a text that a user supplied the control codes go, and what is left is cut; what is
/// short and plain stays as it is.
pub proof fn supplied_texts_are_made_plain(value: &str, r: String)
    requires
        call_ensures(safe_metadata, (value,), r),
    ensures
        text_kept(value@, r@),
        r@.len() <= 128,
        forall|i: int|
            0 <= i < r@.len() ==> 0x20 <= (#[trigger] r@[i] as u32) < 0x7f || r@[i] as u32 >= 0xa0,
        value@.len() <= 128 && (forall|i: int|
            0 <= i < value@.len() ==> 0x20 <= (#[trigger] value@[i] as u32) < 0x7f || value@[i]
                as u32 >= 0xa0) ==> r@ == value@,
{
    same_filter(value@);
    crate::observability::safe_text_is_safe(value@);
    if value@.len() <= 128 && (forall|i: int|
        0 <= i < value@.len() ==> 0x20 <= (#[trigger] value@[i] as u32) < 0x7f || value@[i] as u32
            >= 0xa0) {
        assert(crate::observability::is_safe(value@));
        crate::observability::safe_text_is_kept(value@);
    }
}

/// An event that is made plain keeps all that it says, and a copy of one is the same.
pub proof fn events_are_made_plain(event: AuditEvent, r: AuditEvent, copy: AuditEvent)
    requires
        call_ensures(sanitize_event, (event,), r),
        call_ensures(copy_event, (&r,), copy),
    ensures
        event_kept(event, r),
        event_kept(event, copy),
{
    same_event(event, r);
    same_event(event, copy);
}

} // verus!
