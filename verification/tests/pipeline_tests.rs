use rpipe::errors::ProtocolError;
use rpipe::jsonio::rejection_event_from_body;
use rpipe::numbers::render_decimal;
use rpipe::registry::JobRegistry;
use rpipe::sender::{next_action, UploadAction};

/// The receiver's rejection payload, rendered as the server does: a JSON
/// object with the error message and the expected/received pair as decimal
/// strings.
fn payload_bytes(err: &ProtocolError) -> Vec<u8> {
    let mut m = serde_json::Map::new();
    m.insert(
        "error".to_string(),
        serde_json::Value::String(err.message().to_string()),
    );
    if let Some((expected, received)) = err.details() {
        m.insert(
            "expected".to_string(),
            serde_json::Value::String(String::from_utf8(render_decimal(expected)).unwrap()),
        );
        m.insert(
            "received".to_string(),
            serde_json::Value::String(String::from_utf8(render_decimal(received)).unwrap()),
        );
    }
    serde_json::to_vec(&serde_json::Value::Object(m)).unwrap()
}

#[test]
fn error_payload_shape() {
    let err = ProtocolError::PositionMismatch { expected: 200, received: 100 };
    assert_eq!(err.status_code(), 500);
    assert_eq!(err.message(), "unexpected position");
    assert_eq!(err.details(), Some((200, 100)));
    assert_eq!(ProtocolError::JobNotFound.details(), None);
    assert_eq!(ProtocolError::JobNotFound.message(), "could not find job id in memory");
    assert_eq!(
        ProtocolError::SizeMismatch { expected: 4, received: 3 }.message(),
        "unexpected size"
    );
    assert_eq!(ProtocolError::TransportFailure.message(), "no response from server");
    assert_eq!(ProtocolError::TransportFailure.details(), None);
    assert_eq!(ProtocolError::ProcessSpawnFailure.message(), "could not spawn process");
    assert_eq!(ProtocolError::ProcessSpawnFailure.details(), None);
}

#[test]
fn three_chunks_then_done() {
    // create -> upload three chunks -> done: the watermark walks 100, 200,
    // 250 and the finished job holds exactly the 250 bytes, in order.
    let mut reg = JobRegistry::new();
    let id = reg.create_job().unwrap();
    let input: Vec<u8> = (0..250u32).map(|i| (i % 251) as u8).collect();
    assert_eq!(reg.apply_chunk(&id, 100, 100, &input[0..100].to_vec()), Ok(()));
    assert_eq!(reg.apply_chunk(&id, 100, 200, &input[100..200].to_vec()), Ok(()));
    assert_eq!(reg.apply_chunk(&id, 50, 250, &input[200..250].to_vec()), Ok(()));
    let job = reg.finish_job(&id).unwrap();
    assert_eq!(job.position(), 250);
    assert_eq!(reg.position_of(&id), None);
}

#[test]
fn lost_acknowledgment_is_skipped_not_reapplied() {
    // upload succeeds, the acknowledgment is dropped, and the sender
    // resends the identical chunk: the receiver rejects it with
    // expected=200, received=100, and the sender's check 200 - 100 == 100
    // makes it skip to the next chunk instead of re-uploading.
    let mut reg = JobRegistry::new();
    let id = reg.create_job().unwrap();
    let chunk = vec![7u8; 100];
    assert_eq!(reg.apply_chunk(&id, 100, 100, &chunk), Ok(()));

    let err = reg.apply_chunk(&id, 100, 100, &chunk).unwrap_err();
    assert_eq!(err, ProtocolError::PositionMismatch { expected: 200, received: 100 });

    let body = payload_bytes(&err);
    let ev = rejection_event_from_body(&body);
    assert_eq!(next_action(&ev, 100), UploadAction::SkipAdvance);

    // the watermark still counts the chunk exactly once
    assert_eq!(reg.position_of(&id), Some(100));
}

#[test]
fn unreadable_rejection_body_retries() {
    let ev = rejection_event_from_body(&b"not json at all".to_vec());
    assert_eq!(next_action(&ev, 100), UploadAction::RetryAfterBackoff);
}

#[test]
fn numeric_payload_fields_must_be_strings() {
    // the protocol carries the positions as strings; a bare JSON number is
    // not read as one, so no skip is recognized
    let mut m = serde_json::Map::new();
    m.insert("error".to_string(), serde_json::Value::String("unexpected position".to_string()));
    m.insert("expected".to_string(), serde_json::Value::from(200u64));
    m.insert("received".to_string(), serde_json::Value::from(100u64));
    let body = serde_json::to_vec(&serde_json::Value::Object(m)).unwrap();
    let ev = rejection_event_from_body(&body);
    assert_eq!(next_action(&ev, 100), UploadAction::RetryAfterBackoff);
}

#[test]
fn size_mismatch_payload_round_trips_but_never_skips() {
    let mut reg = JobRegistry::new();
    let id = reg.create_job().unwrap();
    let err = reg.apply_chunk(&id, 4, 4, &vec![1, 2, 3]).unwrap_err();
    assert_eq!(err, ProtocolError::SizeMismatch { expected: 4, received: 3 });
    let ev = rejection_event_from_body(&payload_bytes(&err));
    // expected - declared_size == received would need 4 - 100, far off
    assert_eq!(next_action(&ev, 100), UploadAction::RetryAfterBackoff);
}
