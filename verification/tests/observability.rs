use holdfast::daemon::{record_expiries, ExpiredShell};
use holdfast::ids::{ServerId, ShellId};
use holdfast::net::IpAddr;
use holdfast::observability::{
    safe_metadata, AuditEvent, Observability, RejectReason, ShellOperation, DEFAULT_AUDIT_CAPACITY,
};

#[test]
fn audit_ring_is_bounded_and_metadata_is_sanitized() {
    let server_id = ServerId([1; 16]);
    let shell_id = ShellId([2; 16]);
    let mut obs = Observability::new(server_id, 2);
    for user in ["first", "second\nforged", "third"] {
        obs.record(AuditEvent::ShellAttached { user: user.into(), shell_id }, 7);
    }

    let records = obs.audit_events();
    assert_eq!(records.len(), 2);
    assert!(matches!(
        &records[0].event,
        AuditEvent::ShellAttached { user, .. } if user == "secondforged"
    ));
    assert!(matches!(
        &records[1].event,
        AuditEvent::ShellAttached { user, .. } if user == "third"
    ));

    let capped = Observability::new(server_id, usize::MAX);
    assert_eq!(
        capped.capacity(),
        DEFAULT_AUDIT_CAPACITY,
        "callers cannot raise the audit ring above its hard ceiling"
    );
}

#[test]
fn counters_follow_events_without_user_derived_labels() {
    let mut obs = Observability::new(ServerId([3; 16]), 0);
    obs.record(
        AuditEvent::AuthenticationFailed {
            source_ip: IpAddr::V4(0x7F00_0001),
            reason: RejectReason::RateLimited,
        },
        1,
    );
    obs.record(
        AuditEvent::ShellOperationRejected {
            user: "alice".into(),
            shell_id: None,
            operation: ShellOperation::Open,
            reason: RejectReason::LimitExceeded,
        },
        2,
    );
    obs.record(
        AuditEvent::UploadStarted {
            user: "alice".into(),
            shell_id: ShellId([4; 16]),
            original_name: "payload\nforged".into(),
            bytes: 12,
        },
        3,
    );
    obs.record(
        AuditEvent::UploadCompleted {
            user: "alice".into(),
            shell_id: ShellId([4; 16]),
            stored_basename: "payload.txt".into(),
            bytes: 12,
            duration_ms: 5,
        },
        4,
    );
    let metrics = obs.metrics();
    assert_eq!(metrics.authentication_failed, 1);
    assert_eq!(metrics.authentication_rate_limited, 1);
    assert_eq!(metrics.shell_operations_rejected, 1);
    assert_eq!(metrics.limit_hits, 1);
    assert_eq!(metrics.uploads_active, 0);
    assert_eq!(metrics.uploads_completed, 1);
    assert_eq!(metrics.upload_bytes_completed, 12);
    assert!(obs.audit_events().is_empty(), "capacity zero disables retention");
}

#[test]
fn schema_has_no_place_for_secret_or_terminal_content() {
    let event: AuditEvent = AuditEvent::ShellOpened {
        user: "alice".into(),
        shell_id: ShellId([4; 16]),
        account: Some("alice".into()),
        reused: false,
    };
    let rendered = format!("{event:?}");
    for forbidden in ["resume_token", "connection_grant", "terminal_output", "command"] {
        assert!(!rendered.contains(forbidden));
    }

    let upload: AuditEvent = AuditEvent::UploadCompleted {
        user: "alice".into(),
        shell_id: ShellId([5; 16]),
        stored_basename: "safe.txt".into(),
        bytes: 9,
        duration_ms: 3,
    };
    let rendered = format!("{upload:?}");
    assert!(!rendered.contains("remote_path"));
    assert!(!rendered.contains("local_path"));
    assert!(!rendered.contains("sha256"));
}

#[test]
fn metadata_is_stripped_once() {
    let once = safe_metadata("a\u{7}b\u{1b}[31mc");
    assert_eq!(once, "ab[31mc");
    assert_eq!(safe_metadata(&once), once);
}

#[test]
fn expired_shells_are_recorded_as_such() {
    let mut obs = Observability::new(ServerId([6; 16]), 8);
    let shells = vec![
        ExpiredShell { user: "alice".into(), shell_id: ShellId([1; 16]), exit_code: 0 },
        ExpiredShell { user: "bob".into(), shell_id: ShellId([2; 16]), exit_code: 129 },
    ];
    record_expiries(&mut obs, &shells, 42);
    assert_eq!(obs.metrics().shells_expired, 2);
    assert_eq!(obs.metrics().shells_terminated, 0);
    let records = obs.audit_events();
    assert_eq!(records.len(), 2);
    assert_eq!(records[1].timestamp_ms, 42);
    assert!(matches!(
        &records[1].event,
        AuditEvent::ShellExpired { user, exit_code: 129, .. } if user == "bob"
    ));
}
