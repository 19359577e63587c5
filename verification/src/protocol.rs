//! The protocol's delivery guarantees, proved over a model of one transfer.
//!
//! The model runs a sender and a receiver against an arbitrary input stream
//! and an arbitrary pattern of transport faults. The receiver's acceptance
//! rule is the registry's position validation (`registry::upload_check`) and
//! the sender's reaction to a rejection is the duplicate-skip check
//! (`sender::skip_applies`), each written out on the model's values.

use vstd::prelude::*;

use crate::registry::{apply_valid, fresh_job, upload_check, JobView};

verus! {

/// Applies validated chunks to a job, in order.
pub open spec fn apply_all(j: JobView, bodies: Seq<Seq<u8>>) -> JobView
    decreases bodies.len(),
{
    if bodies.len() == 0 {
        j
    } else {
        apply_all(apply_valid(j, bodies[0]), bodies.drop_first())
    }
}

/// The summed sizes of the chunks.
pub open spec fn total_len(bodies: Seq<Seq<u8>>) -> nat
    decreases bodies.len(),
{
    if bodies.len() == 0 {
        0
    } else {
        bodies[0].len() + total_len(bodies.drop_first())
    }
}

/// The chunks' bytes, in order.
pub open spec fn concat_all(bodies: Seq<Seq<u8>>) -> Seq<u8>
    decreases bodies.len(),
{
    if bodies.len() == 0 {
        Seq::empty()
    } else {
        bodies[0] + concat_all(bodies.drop_first())
    }
}

/// Position monotonicity: after validated chunks of sizes s1..sk have been
/// applied to a job, its watermark stands exactly s1+...+sk past where it
/// started — it never decreases — and the delivered bytes have grown by
/// exactly those chunks, in order.
pub proof fn lemma_position_monotonicity(j: JobView, bodies: Seq<Seq<u8>>)
    ensures
        apply_all(j, bodies).position == j.position + total_len(bodies),
        apply_all(j, bodies).position >= j.position,
        apply_all(j, bodies).delivered == j.delivered + concat_all(bodies),
    decreases bodies.len(),
{
    if bodies.len() == 0 {
        assert(apply_all(j, bodies).delivered =~= j.delivered + concat_all(bodies));
    } else {
        lemma_position_monotonicity(apply_valid(j, bodies[0]), bodies.drop_first());
        assert(apply_all(j, bodies).delivered =~= j.delivered + concat_all(bodies));
    }
}

/// A job created fresh and fed validated chunks holds exactly their bytes,
/// and its watermark counts them.
pub proof fn lemma_fresh_job_delivery(bodies: Seq<Seq<u8>>)
    ensures
        apply_all(fresh_job(), bodies).delivered == concat_all(bodies),
        apply_all(fresh_job(), bodies).position == total_len(bodies),
{
    lemma_position_monotonicity(fresh_job(), bodies);
    assert(fresh_job().delivered + concat_all(bodies) =~= concat_all(bodies));
}

/// One transfer in flight: how far the sender has worked through the input,
/// and which bytes the receiver has validated and forwarded.
pub ghost struct TransferState {
    pub sender_pos: nat,
    pub delivered: Seq<u8>,
}

/// What the transport does to one upload attempt.
#[derive(Clone, Copy, Debug, PartialEq, Eq, Structural)]
pub enum TransferFate {
    /// The request never reached the receiver.
    RequestLost,
    /// The receiver handled the request but its response was lost.
    ResponseLost,
    /// Request and response both went through.
    Exchanged,
}

/// Where the chunk that starts at `p` ends: one full chunk of `k` bytes, or
/// at the end of the input for the final partial chunk.
pub open spec fn chunk_end(input: Seq<u8>, k: nat, p: nat) -> nat {
    if p + k <= input.len() {
        p + k
    } else {
        input.len()
    }
}

/// A transfer starts with nothing sent and nothing delivered.
pub open spec fn transfer_init() -> TransferState {
    TransferState { sender_pos: 0, delivered: Seq::empty() }
}

/// One upload attempt of the chunk the sender currently stands at.
///
/// The receiver applies the chunk exactly when its declared resulting
/// position extends the watermark by the chunk's size — `upload_check`'s
/// position rule, with the watermark standing for the delivered bytes. On a
/// rejection the payload carries `expected`, the watermark plus the chunk's
/// size, and `received`, the declared position; the sender advances without
/// resending exactly when the duplicate-skip check on that pair holds.
pub open spec fn transfer_step(
    input: Seq<u8>,
    k: nat,
    st: TransferState,
    fate: TransferFate,
) -> TransferState {
    let p = st.sender_pos;
    let end = chunk_end(input, k, p);
    let chunk = input.subrange(p as int, end as int);
    let valid = end == st.delivered.len() + chunk.len();
    match fate {
        TransferFate::RequestLost => st,
        TransferFate::ResponseLost => if valid {
            TransferState { sender_pos: p, delivered: st.delivered + chunk }
        } else {
            st
        },
        TransferFate::Exchanged => if valid {
            TransferState { sender_pos: end, delivered: st.delivered + chunk }
        } else {
            let expected = st.delivered.len() + chunk.len();
            let received = end;
            if expected >= chunk.len() && expected - chunk.len() == received {
                TransferState { sender_pos: end, delivered: st.delivered }
            } else {
                st
            }
        },
    }
}

/// The model's acceptance rule is the registry's: against a job whose
/// watermark counts the delivered bytes, a chunk of the right length
/// passes `upload_check` exactly when its declared resulting position
/// extends the delivered bytes by the chunk's size — the `valid` test of
/// `transfer_step`.
pub proof fn lemma_receiver_rule_matches_registry(
    delivered: Seq<u8>,
    body_len: usize,
    declared_position: usize,
)
    requires
        delivered.len() + body_len <= usize::MAX,
    ensures
        (upload_check(
            Some(JobView { position: delivered.len(), delivered }),
            body_len,
            declared_position,
            body_len,
        ) is Ok) <==> (declared_position == delivered.len() + body_len),
{
}

/// What always holds of a transfer: the delivered bytes are a prefix of the
/// input — nothing out of order, nothing duplicated, nothing invented —
/// and the receiver stands either exactly at the sender's current chunk or
/// exactly one chunk ahead of it (the ack-loss window).
pub open spec fn transfer_inv(input: Seq<u8>, k: nat, st: TransferState) -> bool {
    &&& st.sender_pos <= input.len()
    &&& st.delivered.len() <= input.len()
    &&& st.delivered == input.take(st.delivered.len() as int)
    &&& (st.delivered.len() == st.sender_pos || st.delivered.len() == chunk_end(
        input,
        k,
        st.sender_pos,
    ))
}

/// Every fate of every attempt preserves the transfer invariant.
pub proof fn lemma_transfer_step_inv(input: Seq<u8>, k: nat, st: TransferState, fate: TransferFate)
    requires
        k >= 1,
        transfer_inv(input, k, st),
    ensures
        transfer_inv(input, k, transfer_step(input, k, st, fate)),
{
    let p = st.sender_pos;
    let end = chunk_end(input, k, p);
    let chunk = input.subrange(p as int, end as int);
    assert(chunk.len() == end - p);
    if end == st.delivered.len() + chunk.len() {
        assert(st.delivered.len() == p);
        assert(st.delivered + chunk =~= input.take(end as int));
    }
}

/// A whole run of attempts, each with its fate.
pub open spec fn transfer_run(
    input: Seq<u8>,
    k: nat,
    st: TransferState,
    fates: Seq<TransferFate>,
) -> TransferState
    decreases fates.len(),
{
    if fates.len() == 0 {
        st
    } else {
        transfer_run(input, k, transfer_step(input, k, st, fates[0]), fates.drop_first())
    }
}

/// The invariant survives any run.
pub proof fn lemma_transfer_run_inv(
    input: Seq<u8>,
    k: nat,
    st: TransferState,
    fates: Seq<TransferFate>,
)
    requires
        k >= 1,
        transfer_inv(input, k, st),
    ensures
        transfer_inv(input, k, transfer_run(input, k, st, fates)),
    decreases fates.len(),
{
    if fates.len() > 0 {
        lemma_transfer_step_inv(input, k, st, fates[0]);
        lemma_transfer_run_inv(input, k, transfer_step(input, k, st, fates[0]), fates.drop_first());
    }
}

/// Exactly-once delivery: for any input, any chunk size, and any pattern of
/// lost requests and lost acknowledgments, once the sender has worked past
/// the whole input the receiver has been handed the input's bytes exactly
/// once, in order — no gaps, no duplicates.
pub proof fn lemma_exactly_once(input: Seq<u8>, k: nat, fates: Seq<TransferFate>)
    requires
        k >= 1,
        transfer_run(input, k, transfer_init(), fates).sender_pos == input.len(),
    ensures
        transfer_run(input, k, transfer_init(), fates).delivered == input,
{
    assert(transfer_init().delivered =~= input.take(0));
    assert(transfer_inv(input, k, transfer_init()));
    lemma_transfer_run_inv(input, k, transfer_init(), fates);
    let fin = transfer_run(input, k, transfer_init(), fates);
    assert(chunk_end(input, k, input.len()) == input.len());
    assert(fin.delivered.len() == input.len());
    assert(fin.delivered =~= input);
}

/// Duplicate suppression: when a chunk is resent because its acknowledgment
/// was lost and the receiver's watermark already reflects it, the exchange
/// leaves the delivered bytes unchanged and moves the sender to the next
/// chunk — the chunk is not applied twice.
pub proof fn lemma_duplicate_suppressed(input: Seq<u8>, k: nat, st: TransferState)
    requires
        k >= 1,
        transfer_inv(input, k, st),
        st.delivered.len() == chunk_end(input, k, st.sender_pos),
        st.sender_pos < chunk_end(input, k, st.sender_pos),
    ensures
        transfer_step(input, k, st, TransferFate::Exchanged).delivered == st.delivered,
        transfer_step(input, k, st, TransferFate::Exchanged).sender_pos == chunk_end(
            input,
            k,
            st.sender_pos,
        ),
{
    let p = st.sender_pos;
    let end = chunk_end(input, k, p);
    let chunk = input.subrange(p as int, end as int);
    assert(chunk.len() == end - p);
    assert(st.delivered.len() + chunk.len() != end);
}

} // verus!
