use rpipe::chunker::ChunkAssembler;
use rpipe::sender::{
    next_action, rejection_event, SenderPhase, UploadAction, UploadEvent, UploadSession,
};

#[test]
fn acceptance_advances() {
    assert_eq!(next_action(&UploadEvent::Accepted, 100), UploadAction::Advance);
}

#[test]
fn no_response_retries() {
    assert_eq!(
        next_action(&UploadEvent::NoResponse, 100),
        UploadAction::RetryAfterBackoff
    );
}

#[test]
fn recognized_duplicate_skips() {
    let ev = UploadEvent::Rejected { expected: Some(200), received: Some(100) };
    assert_eq!(next_action(&ev, 100), UploadAction::SkipAdvance);
}

#[test]
fn unrecognized_rejection_retries() {
    let ev = UploadEvent::Rejected { expected: Some(200), received: Some(50) };
    assert_eq!(next_action(&ev, 100), UploadAction::RetryAfterBackoff);
    let ev = UploadEvent::Rejected { expected: Some(50), received: Some(100) };
    assert_eq!(next_action(&ev, 100), UploadAction::RetryAfterBackoff);
}

#[test]
fn missing_payload_fields_forbid_the_skip() {
    let ev = UploadEvent::Rejected { expected: None, received: Some(100) };
    assert_eq!(next_action(&ev, 100), UploadAction::RetryAfterBackoff);
    let ev = UploadEvent::Rejected { expected: Some(200), received: None };
    assert_eq!(next_action(&ev, 100), UploadAction::RetryAfterBackoff);
}

#[test]
fn rejection_event_parses_decimal_fields() {
    let ev = rejection_event(Some(b"200".to_vec()), Some(b"100".to_vec()));
    assert_eq!(
        ev,
        UploadEvent::Rejected { expected: Some(200), received: Some(100) }
    );
}

#[test]
fn rejection_event_drops_malformed_fields() {
    let ev = rejection_event(Some(b"2x0".to_vec()), None);
    assert_eq!(ev, UploadEvent::Rejected { expected: None, received: None });
}

#[test]
fn create_response_with_body_opens_a_session() {
    let s = UploadSession::from_create_response(true, "job-1".to_string()).unwrap();
    assert_eq!(s.job_id, "job-1");
    assert_eq!(s.position, 0);
    assert_eq!(s.phase, SenderPhase::Created);
}

#[test]
fn create_failures_are_fatal() {
    assert!(UploadSession::from_create_response(false, "job-1".to_string()).is_none());
    assert!(UploadSession::from_create_response(true, String::new()).is_none());
}

#[test]
fn session_advances_only_on_delivery_or_skip() {
    let mut s = UploadSession::begin("j".to_string());
    assert_eq!(s.declared_position(100), 100);
    assert!(s.apply_action(&UploadAction::Advance, 100));
    assert_eq!(s.position, 100);
    assert!(!s.apply_action(&UploadAction::RetryAfterBackoff, 100));
    assert_eq!(s.position, 100);
    assert!(s.apply_action(&UploadAction::SkipAdvance, 100));
    assert_eq!(s.position, 200);
    assert_eq!(s.phase, SenderPhase::Uploading);
    s.complete();
    assert_eq!(s.phase, SenderPhase::Completed);
    assert_eq!(s.position, 200);
}

#[test]
fn assembler_absorbs_short_reads_up_to_one_chunk() {
    let mut assembler = ChunkAssembler::new(8);
    assert_eq!(assembler.remaining(), 8);
    assembler.absorb(&vec![1, 2, 3]);
    assert_eq!(assembler.remaining(), 5);
    assert!(!assembler.is_full());
    assembler.absorb(&vec![4, 5, 6, 7, 8]);
    assert!(assembler.is_full());
    assert_eq!(assembler.take(), vec![1, 2, 3, 4, 5, 6, 7, 8]);
}

#[test]
fn assembler_trims_the_final_partial_chunk() {
    let mut assembler = ChunkAssembler::new(1024);
    assembler.absorb(&vec![9, 9]);
    assembler.absorb(&Vec::new());
    assert_eq!(assembler.len(), 2);
    assert_eq!(assembler.take(), vec![9, 9]);
}
