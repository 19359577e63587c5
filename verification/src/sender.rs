//! The upload client's state machine.
//!
//! A session runs `Created -> Uploading -> Completed`. Per chunk the sender
//! looks at what the transport brought back — nothing, an acceptance, or a
//! rejection payload — and decides whether to advance to the next chunk,
//! advance without resending (the duplicate-skip case), or back off and
//! retry the same chunk.

use vstd::prelude::*;

use crate::numbers::{all_digits, dec_value};

verus! {

/// What one upload attempt brought back.
#[derive(Clone, Copy, Debug, PartialEq, Eq, Structural)]
pub enum UploadEvent {
    /// The transport produced no response at all.
    NoResponse,
    /// A success acknowledgment.
    Accepted,
    /// A rejection, with the `expected` and `received` positions of its
    /// payload as far as they could be read.
    Rejected { expected: Option<usize>, received: Option<usize> },
}

/// What the sender does next with the current chunk.
#[derive(Clone, Copy, Debug, PartialEq, Eq, Structural)]
pub enum UploadAction {
    /// The chunk was delivered: move to the next one.
    Advance,
    /// The receiver already holds this chunk from an attempt whose
    /// acknowledgment was lost: move on without resending it.
    SkipAdvance,
    /// Sleep the backoff interval and resend the same chunk.
    RetryAfterBackoff,
}

/// The duplicate-skip check: a rejection whose `expected` watermark is
/// exactly one chunk of the declared size past the position the sender
/// declared means the receiver applied this chunk already and only the
/// acknowledgment was lost.
pub open spec fn skip_applies(
    expected: Option<usize>,
    received: Option<usize>,
    declared_size: usize,
) -> bool {
    expected matches Some(e) && received matches Some(r) && e >= declared_size && e - declared_size
        == r
}

/// The sender's reaction to each event.
pub open spec fn action_for(ev: UploadEvent, declared_size: usize) -> UploadAction {
    match ev {
        UploadEvent::Accepted => UploadAction::Advance,
        UploadEvent::NoResponse => UploadAction::RetryAfterBackoff,
        UploadEvent::Rejected { expected, received } => if skip_applies(
            expected,
            received,
            declared_size,
        ) {
            UploadAction::SkipAdvance
        } else {
            UploadAction::RetryAfterBackoff
        },
    }
}

/// Decides what to do with the current chunk: acceptance advances, no
/// response retries after a backoff, and a rejection advances without a
/// resend exactly when the duplicate-skip check recognizes it.
pub fn next_action(ev: &UploadEvent, declared_size: usize) -> (a: UploadAction)
    ensures
        a == action_for(*ev, declared_size),
{
    match ev {
        UploadEvent::Accepted => UploadAction::Advance,
        UploadEvent::NoResponse => UploadAction::RetryAfterBackoff,
        UploadEvent::Rejected { expected, received } => {
            if let (Some(e), Some(r)) = (expected, received) {
                if *e >= declared_size && *e - declared_size == *r {
                    UploadAction::SkipAdvance
                } else {
                    UploadAction::RetryAfterBackoff
                }
            } else {
                UploadAction::RetryAfterBackoff
            }
        },
    }
}

/// What a decimal payload field denotes, if it is a well-formed number that
/// fits.
pub open spec fn parsed_field(raw: Option<Seq<u8>>) -> Option<usize> {
    match raw {
        Some(s) => if s.len() > 0 && all_digits(s) && dec_value(s) <= usize::MAX {
            Some(dec_value(s) as usize)
        } else {
            None
        },
        None => None,
    }
}

/// Turns the raw `expected`/`received` strings of a rejection payload into
/// an event: each field is parsed as a decimal number, and a field that is
/// missing or malformed stays unknown, which later forbids the skip.
pub fn rejection_event(expected_raw: Option<Vec<u8>>, received_raw: Option<Vec<u8>>) -> (ev:
    UploadEvent)
    ensures
        ev == (UploadEvent::Rejected {
            expected: parsed_field(
                match expected_raw {
                    Some(v) => Some(v@),
                    None => None,
                },
            ),
            received: parsed_field(
                match received_raw {
                    Some(v) => Some(v@),
                    None => None,
                },
            ),
        }),
{
    let expected = match &expected_raw {
        Some(v) => crate::numbers::parse_decimal(v),
        None => None,
    };
    let received = match &received_raw {
        Some(v) => crate::numbers::parse_decimal(v),
        None => None,
    };
    UploadEvent::Rejected { expected, received }
}

/// Where a session stands in its lifecycle.
#[derive(Clone, Copy, Debug, PartialEq, Eq, Structural)]
pub enum SenderPhase {
    /// The job exists; no chunk has been taken on yet.
    Created,
    /// Chunks are being uploaded.
    Uploading,
    /// The completion signal has been sent.
    Completed,
}

/// One sender's run against one job.
pub struct UploadSession {
    pub job_id: String,
    pub position: usize,
    pub phase: SenderPhase,
}

impl UploadSession {
    /// A session against the job `job_id`, starting at the beginning of the
    /// stream. A resumed session starts here too: the stream is re-sent
    /// from its start and the receiver's rejections carry the sender past
    /// what was already applied.
    pub fn begin(job_id: String) -> (s: UploadSession)
        ensures
            s.job_id@ == job_id@,
            s.position == 0,
            s.phase == SenderPhase::Created,
    {
        UploadSession { job_id, position: 0, phase: SenderPhase::Created }
    }

    /// Accepts the response of `create`: a success status with a non-empty
    /// body yields a session on the job the body names; anything else is
    /// fatal and yields no session.
    pub fn from_create_response(ok: bool, body: String) -> (r: Option<UploadSession>)
        ensures
            (ok && body@.len() > 0) ==> (r matches Some(s) && s.job_id@ == body@ && s.position == 0
                && s.phase == SenderPhase::Created),
            !(ok && body@.len() > 0) ==> r is None,
    {
        if ok && body.as_str().unicode_len() > 0 {
            Some(UploadSession::begin(body))
        } else {
            None
        }
    }

    /// The resulting cumulative position this chunk is declared with: the
    /// session's position once the chunk is applied.
    pub fn declared_position(&self, chunk_len: usize) -> (p: usize)
        requires
            self.position + chunk_len <= usize::MAX,
        ensures
            p == self.position + chunk_len,
    {
        self.position + chunk_len
    }

    /// Acts on the decision for the current chunk: both kinds of advance
    /// move the position past the chunk exactly once, a retry leaves it
    /// where it was. The position never decreases and the job never
    /// changes.
    pub fn apply_action(&mut self, a: &UploadAction, chunk_len: usize) -> (advanced: bool)
        requires
            old(self).position + chunk_len <= usize::MAX,
            old(self).phase != SenderPhase::Completed,
        ensures
            final(self).job_id@ == old(self).job_id@,
            final(self).phase == SenderPhase::Uploading,
            advanced == (*a != UploadAction::RetryAfterBackoff),
            advanced ==> final(self).position == old(self).position + chunk_len,
            !advanced ==> final(self).position == old(self).position,
            final(self).position >= old(self).position,
    {
        self.phase = SenderPhase::Uploading;
        match a {
            UploadAction::Advance => {
                self.position = self.position + chunk_len;
                true
            },
            UploadAction::SkipAdvance => {
                self.position = self.position + chunk_len;
                true
            },
            UploadAction::RetryAfterBackoff => false,
        }
    }

    /// Marks the completion signal as sent; nothing else changes.
    pub fn complete(&mut self)
        ensures
            final(self).job_id@ == old(self).job_id@,
            final(self).position == old(self).position,
            final(self).phase == SenderPhase::Completed,
    {
        self.phase = SenderPhase::Completed;
    }
}

} // verus!
