use rpipe::errors::ProtocolError;
use rpipe::registry::JobRegistry;

#[test]
fn create_mints_a_uuid_sized_identifier() {
    let mut reg = JobRegistry::new();
    let id = reg.create_job().unwrap();
    assert_eq!(id.len(), 36);
    assert_eq!(reg.position_of(&id), Some(0));
}

#[test]
fn created_identifiers_differ() {
    let mut reg = JobRegistry::new();
    let a = reg.create_job().unwrap();
    let b = reg.create_job().unwrap();
    assert_ne!(a, b);
    assert_eq!(reg.position_of(&a), Some(0));
    assert_eq!(reg.position_of(&b), Some(0));
}

#[test]
fn watermark_advances_by_each_chunk() {
    let mut reg = JobRegistry::new();
    let id = reg.create_job().unwrap();
    assert_eq!(reg.apply_chunk(&id, 3, 3, &vec![1, 2, 3]), Ok(()));
    assert_eq!(reg.position_of(&id), Some(3));
    assert_eq!(reg.apply_chunk(&id, 2, 5, &vec![4, 5]), Ok(()));
    assert_eq!(reg.position_of(&id), Some(5));
}

#[test]
fn size_mismatch_reports_both_values_and_changes_nothing() {
    let mut reg = JobRegistry::new();
    let id = reg.create_job().unwrap();
    let r = reg.apply_chunk(&id, 4, 4, &vec![1, 2, 3]);
    assert_eq!(
        r,
        Err(ProtocolError::SizeMismatch { expected: 4, received: 3 })
    );
    assert_eq!(reg.position_of(&id), Some(0));
}

#[test]
fn size_is_checked_before_the_job_exists() {
    let mut reg = JobRegistry::new();
    let r = reg.apply_chunk(&"no-such-job".to_string(), 2, 2, &vec![9]);
    assert_eq!(
        r,
        Err(ProtocolError::SizeMismatch { expected: 2, received: 1 })
    );
}

#[test]
fn upload_to_unknown_job_fails_without_mutation() {
    let mut reg = JobRegistry::new();
    let id = reg.create_job().unwrap();
    let r = reg.apply_chunk(&"no-such-job".to_string(), 1, 1, &vec![9]);
    assert_eq!(r, Err(ProtocolError::JobNotFound));
    assert_eq!(reg.position_of(&id), Some(0));
}

#[test]
fn position_mismatch_reports_watermark_and_declared() {
    let mut reg = JobRegistry::new();
    let id = reg.create_job().unwrap();
    assert_eq!(reg.apply_chunk(&id, 100, 100, &vec![0; 100]), Ok(()));
    let r = reg.apply_chunk(&id, 100, 100, &vec![0; 100]);
    assert_eq!(
        r,
        Err(ProtocolError::PositionMismatch { expected: 200, received: 100 })
    );
    assert_eq!(reg.position_of(&id), Some(100));
}

#[test]
fn check_upload_matches_apply_chunk_verdict() {
    let mut reg = JobRegistry::new();
    let id = reg.create_job().unwrap();
    assert_eq!(reg.check_upload(&id, 3, 3, 3), Ok(()));
    assert_eq!(
        reg.check_upload(&id, 3, 7, 3),
        Err(ProtocolError::PositionMismatch { expected: 3, received: 7 })
    );
    assert_eq!(reg.position_of(&id), Some(0));
}

#[test]
fn done_removes_the_job_for_good() {
    let mut reg = JobRegistry::new();
    let id = reg.create_job().unwrap();
    assert_eq!(reg.apply_chunk(&id, 2, 2, &vec![1, 2]), Ok(()));
    let job = reg.finish_job(&id).unwrap();
    assert_eq!(job.position(), 2);
    assert_eq!(reg.position_of(&id), None);
    assert!(matches!(reg.finish_job(&id), Err(ProtocolError::JobNotFound)));
    assert_eq!(
        reg.apply_chunk(&id, 1, 3, &vec![3]),
        Err(ProtocolError::JobNotFound)
    );
}

#[test]
fn done_on_unknown_job_fails() {
    let mut reg = JobRegistry::new();
    assert!(matches!(
        reg.finish_job(&"missing".to_string()),
        Err(ProtocolError::JobNotFound)
    ));
}

#[test]
fn other_jobs_are_untouched() {
    let mut reg = JobRegistry::new();
    let a = reg.create_job().unwrap();
    let b = reg.create_job().unwrap();
    assert_eq!(reg.apply_chunk(&a, 3, 3, &vec![1, 2, 3]), Ok(()));
    assert_eq!(reg.position_of(&b), Some(0));
    reg.finish_job(&b).unwrap();
    assert_eq!(reg.position_of(&a), Some(3));
}
