//! Properties of the request lifecycle, proved over the operations' models.
use vstd::prelude::*;
use crate::broker::{
    fulfill_outcome, fulfill_step, provided_keys, resolves, vote_step, FulfillRequest,
    RequestFulfilled,
};
use crate::state::{
    has_voted, ErrorCode, Identity, Instruction, OracleVote, RequestModel, RequestStatus,
    ResultHash,
};
use crate::tally::{
    best_index, count_of, distinct_hashes, leader_of, lemma_best_index, lemma_count_bounded,
    spec_tally,
};

verus! {

/// Once an oracle's vote has been accepted, a second vote by the same oracle
/// on the same request fails, whatever hash it reports.
pub proof fn lemma_no_second_vote(
    r: RequestModel,
    oracle: Identity,
    first: ResultHash,
    second: ResultHash,
)
    requires
        r.wf(),
        vote_step(r, oracle, first) is Ok,
    ensures
        vote_step(vote_step(r, oracle, first)->Ok_0, oracle, second) is Err,
{
    let m = vote_step(r, oracle, first)->Ok_0;
    assert(m.votes[r.votes.len() as int].oracle == oracle);
    assert(has_voted(m.votes, oracle));
}

/// A payload whose hash is not the winning hash is refused, and the record
/// stays in `VotingCompleted`.
pub proof fn lemma_wrong_payload_refused(
    before: RequestModel,
    after: RequestModel,
    ctx: FulfillRequest,
    response: Seq<u8>,
    response_hash: Seq<u8>,
    r: Result<(Instruction, RequestFulfilled), ErrorCode>,
)
    requires
        before.wf(),
        before.status == RequestStatus::VotingCompleted,
        before.winning_hash->0@ != response_hash,
        fulfill_outcome(before, after, ctx, response, response_hash, r),
    ensures
        r == Err::<(Instruction, RequestFulfilled), ErrorCode>(ErrorCode::ResponseHashMismatch),
        after.status == RequestStatus::VotingCompleted,
{
}

/// A request is fulfilled at most once: after a successful fulfilment, any
/// further one fails with `VotingNotCompleted` and changes nothing.
pub proof fn lemma_fulfilled_once(
    r0: RequestModel,
    r1: RequestModel,
    r2: RequestModel,
    ctx1: FulfillRequest,
    ctx2: FulfillRequest,
    response1: Seq<u8>,
    response2: Seq<u8>,
    hash1: Seq<u8>,
    hash2: Seq<u8>,
    res1: Result<(Instruction, RequestFulfilled), ErrorCode>,
    res2: Result<(Instruction, RequestFulfilled), ErrorCode>,
)
    requires
        r0.wf(),
        fulfill_outcome(r0, r1, ctx1, response1, hash1, res1),
        res1 is Ok,
        fulfill_outcome(r1, r2, ctx2, response2, hash2, res2),
    ensures
        r1.status == RequestStatus::Fulfilled,
        res2 == Err::<(Instruction, RequestFulfilled), ErrorCode>(ErrorCode::VotingNotCompleted),
        r2 == r1,
{
}

/// Accounts that differ from the declared callback accounts (one more, one
/// less, another key or another order) make the fulfilment fail: no callback
/// is built and the record is unchanged. Where every earlier check passes,
/// the error names the mismatch.
pub proof fn lemma_callback_accounts_enforced(
    before: RequestModel,
    after: RequestModel,
    ctx: FulfillRequest,
    response: Seq<u8>,
    response_hash: Seq<u8>,
    r: Result<(Instruction, RequestFulfilled), ErrorCode>,
)
    requires
        before.wf(),
        provided_keys(ctx.remaining_accounts@) != before.callback_accounts,
        fulfill_outcome(before, after, ctx, response, response_hash, r),
    ensures
        r is Err,
        after == before,
        before.status == RequestStatus::VotingCompleted && before.winning_hash->0@ == response_hash
            && ctx.callback_program == before.caller_program ==> r == Err::<
            (Instruction, RequestFulfilled),
            ErrorCode,
        >(ErrorCode::AccountCountMismatch) || r == Err::<
            (Instruction, RequestFulfilled),
            ErrorCode,
        >(ErrorCode::AccountMismatch),
{
}

/// The status only moves forward: a vote leaves a pending record pending or
/// closes its vote, and a fulfilment takes a completed vote to `Fulfilled`,
/// keeping the winning hash, the votes and the callback accounts.
pub proof fn lemma_status_moves_forward(
    r: RequestModel,
    oracle: Identity,
    response_hash: ResultHash,
    callback_program: Identity,
    keys: Seq<Identity>,
    payload_hash: Seq<u8>,
    payload_len: nat,
)
    requires
        r.wf(),
    ensures
        vote_step(r, oracle, response_hash) matches Ok(m) ==> {
            &&& r.status == RequestStatus::Pending
            &&& m.status == RequestStatus::Pending || m.status == RequestStatus::VotingCompleted
            &&& m.callback_accounts == r.callback_accounts
            &&& m.votes.take(r.votes.len() as int) == r.votes
        },
        fulfill_step(r, callback_program, keys, payload_hash, payload_len) matches Ok(m) ==> {
            &&& r.status == RequestStatus::VotingCompleted
            &&& m.status == RequestStatus::Fulfilled
            &&& m.winning_hash == r.winning_hash
            &&& m.votes == r.votes
            &&& m.callback_accounts == r.callback_accounts
        },
{
    if vote_step(r, oracle, response_hash) is Ok {
        let m = vote_step(r, oracle, response_hash)->Ok_0;
        assert(m.votes.take(r.votes.len() as int) =~= r.votes);
    }
}

/// A hash reported by every vote.
proof fn lemma_count_all(votes: Seq<OracleVote>, h: ResultHash)
    requires
        count_of(votes, h) == votes.len(),
    ensures
        forall|i: int| 0 <= i < votes.len() ==> (#[trigger] votes[i]).response_hash == h,
    decreases votes.len(),
{
    if votes.len() > 0 {
        let d = votes.drop_last();
        lemma_count_bounded(d, h);
        lemma_count_all(d, h);
        assert forall|i: int| 0 <= i < votes.len() implies (#[trigger] votes[i]).response_hash
            == h by {
            if i < votes.len() - 1 {
                assert(votes[i] == d[i]);
            }
        }
    }
}

/// With an approval threshold of 100, a vote closes the request only when
/// every vote cast so far reports the winning hash.
pub proof fn lemma_unanimity_at_full_threshold(r: RequestModel, oracle: Identity, h: ResultHash)
    requires
        r.wf(),
        r.approval_threshold == 100,
        vote_step(r, oracle, h) is Ok,
        vote_step(r, oracle, h)->Ok_0.status == RequestStatus::VotingCompleted,
    ensures
        ({
            let m = vote_step(r, oracle, h)->Ok_0;
            forall|i: int|
                0 <= i < m.votes.len() ==> (#[trigger] m.votes[i]).response_hash
                    == m.winning_hash->0
        }),
{
    let m = vote_step(r, oracle, h)->Ok_0;
    let votes = m.votes;
    let t = spec_tally(votes);
    assert(distinct_hashes(votes).len() > 0);
    lemma_best_index(t);
    let k = best_index(t);
    let w = distinct_hashes(votes)[k];
    lemma_count_bounded(votes, w);
    assert(leader_of(votes) == (w, count_of(votes, w) as u8));
    assert(resolves(votes, r.min_votes, r.approval_threshold));
    let c = count_of(votes, w) as int;
    let n = votes.len() as int;
    assert(c * 100 / n >= 100 ==> c >= n) by (nonlinear_arith)
        requires
            n > 0,
            c <= n,
    ;
    lemma_count_all(votes, w);
}

} // verus!
