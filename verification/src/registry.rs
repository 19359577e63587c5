//! The receiver's job registry: a mapping from job identifier to job record.
//!
//! A job binds an identifier to a byte-offset watermark (`expected_position`)
//! and, as a ghost model, to the bytes already validated and forwarded to the
//! job's subprocess. Entries are created by `create_job`, advanced once per
//! validated chunk by `apply_chunk`, and removed by `finish_job`; no entry
//! outlives its removal and no two entries share an identifier.

use vstd::prelude::*;

use crate::errors::ProtocolError;

verus! {

/// The mathematical model of one job: its watermark and the bytes delivered
/// to its subprocess so far. The watermark always equals the number of
/// delivered bytes.
pub ghost struct JobView {
    pub position: nat,
    pub delivered: Seq<u8>,
}

/// The model of a job right after creation.
pub open spec fn fresh_job() -> JobView {
    JobView { position: 0, delivered: Seq::empty() }
}

/// How a validated chunk changes a job: the watermark advances by exactly
/// the chunk's size and the chunk's bytes are appended to what was
/// delivered.
pub open spec fn apply_valid(j: JobView, body: Seq<u8>) -> JobView {
    JobView { position: j.position + body.len(), delivered: j.delivered + body }
}

/// One registry entry.
pub struct Job {
    pub id: String,
    pub expected_position: usize,
    pub delivered: Ghost<Seq<u8>>,
}

impl Job {
    /// The watermark counts exactly the delivered bytes.
    pub open spec fn wf(self) -> bool {
        self.delivered@.len() == self.expected_position as nat
    }

    pub open spec fn view(self) -> JobView {
        JobView { position: self.expected_position as nat, delivered: self.delivered@ }
    }

    /// The current watermark.
    pub fn position(&self) -> (p: usize)
        ensures
            p as nat == self@.position,
    {
        self.expected_position
    }
}

/// No two entries share an identifier.
pub open spec fn unique_ids(s: Seq<Job>) -> bool {
    forall|i: int, j: int| 0 <= i < j < s.len() ==> (#[trigger] s[i]).id@ != (#[trigger] s[j]).id@
}

/// First-match lookup of an identifier in a sequence of entries.
pub open spec fn lookup_in(s: Seq<Job>, id: Seq<char>) -> Option<JobView>
    decreases s.len(),
{
    if s.len() == 0 {
        None
    } else if s[0].id@ == id {
        Some(s[0]@)
    } else {
        lookup_in(s.drop_first(), id)
    }
}

/// Under unique identifiers, lookup is exactly "some index matches".
proof fn lemma_lookup_is_index(s: Seq<Job>, id: Seq<char>)
    requires
        unique_ids(s),
    ensures
        (lookup_in(s, id) is None) <==> (forall|i: int|
            0 <= i < s.len() ==> (#[trigger] s[i]).id@ != id),
        forall|i: int|
            0 <= i < s.len() && (#[trigger] s[i]).id@ == id ==> lookup_in(s, id) == Some(s[i]@),
    decreases s.len(),
{
    if s.len() > 0 {
        let t = s.drop_first();
        assert(forall|i: int| 0 <= i < t.len() ==> #[trigger] t[i] == s[i + 1]);
        assert(unique_ids(t));
        lemma_lookup_is_index(t, id);
        if s[0].id@ == id {
            assert(lookup_in(s, id) == Some(s[0]@));
            assert forall|i: int|
                0 <= i < s.len() && (#[trigger] s[i]).id@ == id implies lookup_in(s, id) == Some(
                s[i]@,
            ) by {
                if i > 0 {
                    assert(s[0].id@ != s[i].id@);
                }
            }
        } else {
            assert(lookup_in(s, id) == lookup_in(t, id));
            assert forall|i: int|
                0 <= i < s.len() && (#[trigger] s[i]).id@ == id implies lookup_in(s, id) == Some(
                s[i]@,
            ) by {
                assert(i > 0);
                assert(t[i - 1] == s[i]);
            }
            if lookup_in(s, id) is None {
                assert forall|i: int| 0 <= i < s.len() implies (#[trigger] s[i]).id@ != id by {
                    if i > 0 {
                        assert(t[i - 1] == s[i]);
                    }
                }
            } else {
                assert(!(forall|i: int| 0 <= i < t.len() ==> (#[trigger] t[i]).id@ != id));
                let w = choose|w: int| 0 <= w < t.len() && (#[trigger] t[w]).id@ == id;
                assert(s[w + 1].id@ == id);
            }
        }
    }
}

/// The verdict of the receiver's upload validation, in the order the
/// receiver checks: body length against declared size first, then the job's
/// existence, then the declared resulting position against the watermark.
pub open spec fn upload_check(
    job: Option<JobView>,
    declared_size: usize,
    declared_position: usize,
    body_len: usize,
) -> Result<(), ProtocolError> {
    if body_len != declared_size {
        Err(ProtocolError::SizeMismatch { expected: declared_size, received: body_len })
    } else if job is None {
        Err(ProtocolError::JobNotFound)
    } else {
        let j = job->Some_0;
        if declared_position != j.position + declared_size {
            Err(
                ProtocolError::PositionMismatch {
                    expected: (j.position + declared_size) as usize,
                    received: declared_position,
                },
            )
        } else {
            Ok(())
        }
    }
}

/// Size validation holds of every upload, before the job is even looked
/// up: a body whose length differs from its declared size is rejected with
/// `SizeMismatch` reporting both values, whatever job — or none — the
/// identifier names. That the registry is left unchanged by the rejection
/// is part of `apply_chunk`'s contract.
pub proof fn lemma_size_validation(
    job: Option<JobView>,
    declared_size: usize,
    declared_position: usize,
    body_len: usize,
)
    requires
        body_len != declared_size,
    ensures
        upload_check(job, declared_size, declared_position, body_len) == Err::<(), ProtocolError>(
            ProtocolError::SizeMismatch { expected: declared_size, received: body_len },
        ),
{
}

/// How often a colliding identifier mint is retried before `create_job`
/// gives up.
const ID_MINT_ATTEMPTS: usize = 16;

/// The receiver's registry of live jobs.
pub struct JobRegistry {
    jobs: Vec<Job>,
}

/// Relies on `uuid::Uuid::new_v4` and its hyphenated `Display` form: a fresh
/// random version-4 identifier, rendered as 36 ASCII characters. The value
/// is random; nothing more is assumed of it.
#[verifier::external_body]
fn mint_job_id() -> (r: String)
    ensures
        r@.len() == 36,
{
    uuid::Uuid::new_v4().to_string()
}

impl JobRegistry {
    /// Entries are well formed and identifiers unique.
    pub closed spec fn wf(self) -> bool {
        &&& unique_ids(self.jobs@)
        &&& forall|i: int| 0 <= i < self.jobs@.len() ==> (#[trigger] self.jobs@[i]).wf()
    }

    /// The job registered under `id`, if any.
    pub closed spec fn lookup(self, id: Seq<char>) -> Option<JobView> {
        lookup_in(self.jobs@, id)
    }

    /// An empty registry.
    pub fn new() -> (r: JobRegistry)
        ensures
            r.wf(),
            forall|id: Seq<char>| r.lookup(id) is None,
    {
        JobRegistry { jobs: Vec::new() }
    }

    /// The index of the entry for `id`, if one exists.
    fn find_index(&self, id: &String) -> (r: Option<usize>)
        requires
            self.wf(),
        ensures
            r matches Some(i) ==> i < self.jobs@.len() && self.jobs@[i as int].id@ == id@
                && self.lookup(id@) == Some(self.jobs@[i as int]@),
            r is None ==> self.lookup(id@) is None,
    {
        let mut i: usize = 0;
        while i < self.jobs.len()
            invariant
                self.wf(),
                i <= self.jobs@.len(),
                forall|j: int| 0 <= j < i ==> (#[trigger] self.jobs@[j]).id@ != id@,
            decreases self.jobs@.len() - i,
        {
            if self.jobs[i].id == *id {
                proof {
                    lemma_lookup_is_index(self.jobs@, id@);
                }
                return Some(i);
            }
            i = i + 1;
        }
        proof {
            lemma_lookup_is_index(self.jobs@, id@);
        }
        None
    }

    /// The watermark of the job registered under `id`, if any.
    pub fn position_of(&self, id: &String) -> (r: Option<usize>)
        requires
            self.wf(),
        ensures
            match self.lookup(id@) {
                Some(j) => r == Some(j.position as usize),
                None => r is None,
            },
    {
        match self.find_index(id) {
            Some(i) => Some(self.jobs[i].expected_position),
            None => None,
        }
    }

    /// Registers a new job under a freshly minted identifier, with its
    /// watermark at zero, and returns the identifier. The identifier was
    /// not registered before: a mint that collides with a live job is
    /// thrown away and minted again, a bounded number of times, so no live
    /// entry is ever overwritten. Every other entry is untouched. Only
    /// when every mint collided — which a working random source never
    /// produces — is nothing registered and nothing returned.
    pub fn create_job(&mut self) -> (r: Option<String>)
        requires
            old(self).wf(),
        ensures
            final(self).wf(),
            r matches Some(id) ==> old(self).lookup(id@) is None && id@.len() == 36
                && final(self).lookup(id@) == Some(fresh_job()) && (forall|other: Seq<char>|
                other != id@ ==> final(self).lookup(other) == old(self).lookup(other)),
            r is None ==> *final(self) == *old(self),
    {
        let mut attempts: usize = 0;
        while attempts < ID_MINT_ATTEMPTS
            invariant
                self.wf(),
                *self == *old(self),
            decreases ID_MINT_ATTEMPTS - attempts,
        {
            let id = mint_job_id();
            if self.find_index(&id).is_none() {
                let entry = Job {
                    id: id.clone(),
                    expected_position: 0,
                    delivered: Ghost(Seq::empty()),
                };
                proof {
                    lemma_lookup_push_new(self.jobs@, entry);
                }
                self.jobs.push(entry);
                return Some(id);
            }
            attempts = attempts + 1;
        }
        None
    }

    /// The receiver's validation of one upload, without any state change:
    /// the verdict that `apply_chunk` would return for a body of length
    /// `body_len`.
    pub fn check_upload(
        &self,
        id: &String,
        declared_size: usize,
        declared_position: usize,
        body_len: usize,
    ) -> (r: Result<(), ProtocolError>)
        requires
            self.wf(),
            self.lookup(id@) matches Some(j) ==> j.position + declared_size <= usize::MAX,
        ensures
            r == upload_check(self.lookup(id@), declared_size, declared_position, body_len),
    {
        if body_len != declared_size {
            return Err(ProtocolError::SizeMismatch { expected: declared_size, received: body_len });
        }
        match self.find_index(id) {
            None => Err(ProtocolError::JobNotFound),
            Some(i) => {
                let target = self.jobs[i].expected_position + declared_size;
                if declared_position != target {
                    Err(
                        ProtocolError::PositionMismatch {
                            expected: target,
                            received: declared_position,
                        },
                    )
                } else {
                    Ok(())
                }
            },
        }
    }

    /// Validates one chunk against the job under `id` and, on success,
    /// advances the watermark by exactly the declared size and appends the
    /// body to the delivered bytes. On any rejection the registry is
    /// unchanged. Every entry other than `id`'s is untouched either way.
    pub fn apply_chunk(
        &mut self,
        id: &String,
        declared_size: usize,
        declared_position: usize,
        body: &Vec<u8>,
    ) -> (r: Result<(), ProtocolError>)
        requires
            old(self).wf(),
            old(self).lookup(id@) matches Some(j) ==> j.position + declared_size <= usize::MAX,
        ensures
            final(self).wf(),
            r == upload_check(old(self).lookup(id@), declared_size, declared_position, body@.len() as usize),
            r is Err ==> *final(self) == *old(self),
            r is Ok ==> (old(self).lookup(id@) matches Some(j) && final(self).lookup(id@) == Some(
                apply_valid(j, body@),
            )),
            forall|other: Seq<char>|
                other != id@ ==> final(self).lookup(other) == old(self).lookup(other),
    {
        if body.len() != declared_size {
            return Err(
                ProtocolError::SizeMismatch { expected: declared_size, received: body.len() },
            );
        }
        match self.find_index(id) {
            None => Err(ProtocolError::JobNotFound),
            Some(i) => {
                let target = self.jobs[i].expected_position + declared_size;
                if declared_position != target {
                    Err(
                        ProtocolError::PositionMismatch {
                            expected: target,
                            received: declared_position,
                        },
                    )
                } else {
                    let entry = Job {
                        id: self.jobs[i].id.clone(),
                        expected_position: target,
                        delivered: Ghost(self.jobs@[i as int].delivered@ + body@),
                    };
                    proof {
                        lemma_lookup_update_same_id(self.jobs@, i as int, entry);
                    }
                    self.jobs[i] = entry;
                    Ok(())
                }
            },
        }
    }

    /// Removes the job under `id` and hands its record back so that the
    /// caller can close the subprocess's input and await its exit. Fails
    /// with `JobNotFound`, changing nothing, when no such job exists. A
    /// removed identifier is gone: a later call with it fails the same way.
    pub fn finish_job(&mut self, id: &String) -> (r: Result<Job, ProtocolError>)
        requires
            old(self).wf(),
        ensures
            final(self).wf(),
            old(self).lookup(id@) is None ==> r == Err::<Job, ProtocolError>(
                ProtocolError::JobNotFound,
            ) && *final(self) == *old(self),
            old(self).lookup(id@) matches Some(j) ==> (r matches Ok(job) && job@ == j && job.id@
                == id@ && job.wf()) && final(self).lookup(id@) is None,
            forall|other: Seq<char>|
                other != id@ ==> final(self).lookup(other) == old(self).lookup(other),
    {
        match self.find_index(id) {
            None => Err(ProtocolError::JobNotFound),
            Some(i) => {
                proof {
                    lemma_lookup_remove(self.jobs@, i as int);
                }
                let job = self.jobs.remove(i);
                Ok(job)
            },
        }
    }
}

/// Replacing the entry at `i` by one with the same identifier: that
/// identifier now maps to the new entry, every other identifier is
/// untouched.
proof fn lemma_lookup_update_same_id(s: Seq<Job>, i: int, e: Job)
    requires
        unique_ids(s),
        0 <= i < s.len(),
        e.id@ == s[i].id@,
    ensures
        unique_ids(s.update(i, e)),
        lookup_in(s.update(i, e), e.id@) == Some(e@),
        forall|other: Seq<char>|
            other != e.id@ ==> lookup_in(s.update(i, e), other) == lookup_in(s, other),
{
    let s2 = s.update(i, e);
    assert(unique_ids(s2));
    lemma_lookup_is_index(s, e.id@);
    lemma_lookup_is_index(s2, e.id@);
    assert(s2[i].id@ == e.id@);
    assert forall|other: Seq<char>| other != e.id@ implies lookup_in(s2, other) == lookup_in(
        s,
        other,
    ) by {
        lemma_lookup_is_index(s, other);
        lemma_lookup_is_index(s2, other);
        if lookup_in(s, other) is Some {
            let w = choose|w: int| 0 <= w < s.len() && (#[trigger] s[w]).id@ == other;
            assert(s2[w] == s[w]);
        }
        if lookup_in(s2, other) is Some {
            let w = choose|w: int| 0 <= w < s2.len() && (#[trigger] s2[w]).id@ == other;
            assert(s2[w] == s[w]);
        }
    }
}

/// Appending an entry whose identifier is not yet present: that identifier
/// now maps to the new entry, every other identifier is untouched.
proof fn lemma_lookup_push_new(s: Seq<Job>, e: Job)
    requires
        unique_ids(s),
        lookup_in(s, e.id@) is None,
    ensures
        unique_ids(s.push(e)),
        lookup_in(s.push(e), e.id@) == Some(e@),
        forall|other: Seq<char>|
            other != e.id@ ==> lookup_in(s.push(e), other) == lookup_in(s, other),
{
    let s2 = s.push(e);
    lemma_lookup_is_index(s, e.id@);
    assert(forall|i: int| 0 <= i < s.len() ==> (#[trigger] s2[i]) == s[i]);
    assert(s2[s.len() as int] == e);
    assert(unique_ids(s2));
    lemma_lookup_is_index(s2, e.id@);
    assert forall|other: Seq<char>| other != e.id@ implies lookup_in(s2, other) == lookup_in(
        s,
        other,
    ) by {
        lemma_lookup_is_index(s, other);
        lemma_lookup_is_index(s2, other);
        if lookup_in(s, other) is Some {
            let w = choose|w: int| 0 <= w < s.len() && (#[trigger] s[w]).id@ == other;
            assert(s2[w] == s[w]);
        }
        if lookup_in(s2, other) is Some {
            let w = choose|w: int| 0 <= w < s2.len() && (#[trigger] s2[w]).id@ == other;
            assert(w < s.len() && s2[w] == s[w]);
        }
    }
}

/// Removing the entry at `i`: its identifier no longer maps to anything,
/// every other identifier is untouched.
proof fn lemma_lookup_remove(s: Seq<Job>, i: int)
    requires
        unique_ids(s),
        0 <= i < s.len(),
    ensures
        unique_ids(s.remove(i)),
        lookup_in(s.remove(i), s[i].id@) is None,
        forall|other: Seq<char>|
            other != s[i].id@ ==> lookup_in(s.remove(i), other) == lookup_in(s, other),
{
    let s2 = s.remove(i);
    assert(forall|j: int| 0 <= j < i ==> (#[trigger] s2[j]) == s[j]);
    assert(forall|j: int| i <= j < s2.len() ==> (#[trigger] s2[j]) == s[j + 1]);
    assert(unique_ids(s2));
    lemma_lookup_is_index(s2, s[i].id@);
    assert forall|j: int| 0 <= j < s2.len() implies (#[trigger] s2[j]).id@ != s[i].id@ by {
        if j < i {
            assert(s2[j] == s[j]);
        } else {
            assert(s2[j] == s[j + 1]);
        }
    }
    assert forall|other: Seq<char>| other != s[i].id@ implies lookup_in(s2, other) == lookup_in(
        s,
        other,
    ) by {
        lemma_lookup_is_index(s, other);
        lemma_lookup_is_index(s2, other);
        if lookup_in(s, other) is Some {
            let w = choose|w: int| 0 <= w < s.len() && (#[trigger] s[w]).id@ == other;
            if w < i {
                assert(s2[w] == s[w]);
            } else {
                assert(w > i);
                assert(s2[w - 1] == s[w]);
            }
        }
        if lookup_in(s2, other) is Some {
            let w = choose|w: int| 0 <= w < s2.len() && (#[trigger] s2[w]).id@ == other;
            if w < i {
                assert(s2[w] == s[w]);
            } else {
                assert(s2[w] == s[w + 1]);
            }
        }
    }
}

} // verus!
