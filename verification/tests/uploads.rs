use holdfast::uploads::{
    check_upload_id, finish, ReceiveUploadRequest, UploadDeclaration, UploadError, UploadPlan, UploadReply,
    UploadService, UploadValidationError, MAX_UPLOADS_GLOBAL, MAX_UPLOADS_PER_USER,
};

#[test]
fn limiter_releases_user_entries_and_enforces_both_bounds() {
    let mut service = UploadService::spawner(String::new(), 1024);
    let permits: Vec<_> =
        (0..MAX_UPLOADS_PER_USER).map(|_| service.try_acquire("alice").ok().unwrap()).collect();
    assert!(matches!(service.try_acquire("alice"), Err(UploadError::LimitExceeded)));
    for permit in permits {
        service.release(permit);
    }
    assert_eq!(service.active_users(), 0);

    let permits: Vec<_> = (0..MAX_UPLOADS_GLOBAL)
        .map(|index| service.try_acquire(&format!("user-{index}")).ok().unwrap())
        .collect();
    assert!(matches!(service.try_acquire("one-more"), Err(UploadError::LimitExceeded)));
    for permit in permits {
        service.release(permit);
    }
    assert_eq!(service.active_users(), 0);
}

fn declaration() -> UploadDeclaration {
    UploadDeclaration { original_name: "a.txt".to_string(), total_bytes: 9, sha256: vec![7; 32] }
}

#[test]
fn a_declaration_goes_to_the_backend_whole() {
    let service = UploadService::same_uid("/var/uploads".to_string(), 10);
    assert_eq!(service.file_limit(), 10);
    assert_eq!(
        service.begin(Ok(()), None, declaration(), 4096),
        Ok(UploadPlan::SameUid {
            root: "/var/uploads".to_string(),
            declaration: declaration(),
            maximum_chunk_bytes: 4096,
        })
    );
    let fault = UploadValidationError::FileTooLarge;
    assert_eq!(
        service.begin(Err(fault), None, declaration(), 4096),
        Err(UploadError::Validation(fault))
    );
    assert!(service.reaps_expired());

    let spawner = UploadService::spawner("/run/spawner".to_string(), 10);
    assert_eq!(
        spawner.begin(Ok(()), None, declaration(), 4096),
        Err(UploadError::MissingAccount)
    );
    let fault = UploadValidationError::InvalidDigest;
    assert_eq!(
        spawner.begin(Err(fault), None, declaration(), 4096),
        Err(UploadError::Validation(fault))
    );
    assert_eq!(
        spawner.begin(Ok(()), Some("alice"), declaration(), 4096),
        Ok(UploadPlan::Spawner {
            socket: "/run/spawner".to_string(),
            request: ReceiveUploadRequest {
                account: "alice".to_string(),
                original_name: "a.txt".to_string(),
                total_bytes: 9,
                sha256: vec![7; 32],
                maximum_chunk_bytes: 4096,
            },
        })
    );
    assert!(!spawner.reaps_expired());
}

#[test]
fn a_report_must_be_about_the_upload() {
    let id = [5u8; 16];
    let report = |upload_id: Vec<u8>, sha256: Vec<u8>| UploadReply::Finished {
        upload_id,
        remote_path: "/home/alice/f".to_string(),
        bytes_written: 3,
        sha256,
    };
    let done = finish(report(id.to_vec(), vec![1; 32])).unwrap();
    assert_eq!(done.upload_id, id);
    assert_eq!(done.remote_path, "/home/alice/f");
    assert_eq!(done.bytes_written, 3);
    assert_eq!(done.sha256, [1; 32]);
    assert_eq!(check_upload_id(&id, &id), Ok(()));
    assert_eq!(
        check_upload_id(&id, &[6; 16]),
        Err(UploadError::Validation(UploadValidationError::InvalidUploadId))
    );
    assert_eq!(check_upload_id(&id, &id[1..]).is_err(), true);
    let malformed = Err(UploadError::MalformedBackendResponse);
    assert_eq!(finish(report(vec![5; 15], vec![1; 32])), malformed);
    assert_eq!(finish(report(id.to_vec(), vec![1; 31])), malformed);
    assert_eq!(finish(UploadReply::Other), malformed);
}
