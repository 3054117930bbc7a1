use vstd::prelude::*;
use vstd::utf8::encode_utf8;
use crate::state::{
    has_voted, AccountMeta, ErrorCode, Identity, LLMRequest, Message, OracleVote, RequestModel,
    RequestStatus, ResultHash, eq32, MAX_CALLBACK_ACCOUNTS, MAX_MESSAGES, MAX_NAME_LEN,
    MAX_ORACLES,
};
use crate::digest::{ledger_hash, ledger_hash_of};
use crate::dispatch::{build_callback, callback_data, callback_metas, callback_too_long};
use crate::state::Instruction;
use crate::tally::{
    count_votes, distinct_hashes, leader_of, lemma_best_index, pick_leader, spec_tally,
};

verus! {

/// What `create_request` reads from the accounts the host passed in.
#[derive(Clone, Debug)]
pub struct CreateRequest {
    /// The program that will receive the callback.
    pub caller_program: Identity,
    /// The accounts the callback will address, in order.
    pub remaining_accounts: Vec<AccountMeta>,
    /// The host clock at creation, in seconds.
    pub unix_timestamp: i64,
}

/// What `submit_vote` reads from the accounts: the oracle, whose signature
/// the host has verified.
#[derive(Clone, Copy, Debug)]
pub struct SubmitVote {
    pub oracle: Identity,
}

/// What `fulfill_request` reads from the accounts.
#[derive(Clone, Debug)]
pub struct FulfillRequest {
    pub callback_program: Identity,
    pub remaining_accounts: Vec<AccountMeta>,
}

/// Notification of a new request.
#[derive(Clone, Debug)]
pub struct RequestCreated {
    pub request_id: String,
    pub caller_program: Identity,
    pub provider: String,
    pub model_id: String,
    pub messages: Vec<Message>,
    pub min_votes: u8,
    pub approval_threshold: u8,
}

/// Notification that a hash has won the vote.
#[derive(Clone, Debug)]
pub struct VotingCompleted {
    pub request_id: String,
    pub winning_hash: ResultHash,
    pub vote_count: u8,
    pub total_votes: u8,
}

/// Notification that the winning payload was delivered.
#[derive(Clone, Debug)]
pub struct RequestFulfilled {
    pub request_id: String,
    pub response_length: u64,
}

/// The UTF-8 length of a string, in bytes.
pub open spec fn byte_len(s: Seq<char>) -> nat {
    encode_utf8(s).len()
}

/// Which bound, if any, a creation breaks; checked in this order.
pub open spec fn create_error(
    provider: Seq<char>,
    model_id: Seq<char>,
    n_messages: nat,
    n_accounts: nat,
    min_votes: u8,
    approval_threshold: u8,
) -> Option<ErrorCode> {
    if byte_len(provider) > MAX_NAME_LEN {
        Some(ErrorCode::ProviderTooLong)
    } else if byte_len(model_id) > MAX_NAME_LEN {
        Some(ErrorCode::ModelIdTooLong)
    } else if n_messages > MAX_MESSAGES {
        Some(ErrorCode::TooManyMessages)
    } else if n_accounts > MAX_CALLBACK_ACCOUNTS {
        Some(ErrorCode::TooManyAccounts)
    } else if min_votes == 0 {
        Some(ErrorCode::InvalidMinVotes)
    } else if approval_threshold == 0 || approval_threshold > 100 {
        Some(ErrorCode::InvalidApprovalThreshold)
    } else {
        None
    }
}

/// The record a successful creation produces.
pub open spec fn created_model(
    request_id: Seq<char>,
    ctx: CreateRequest,
    provider: Seq<char>,
    model_id: Seq<char>,
    min_votes: u8,
    approval_threshold: u8,
) -> RequestModel {
    RequestModel {
        id: request_id,
        caller_program: ctx.caller_program,
        provider,
        model_id,
        callback_accounts: ctx.remaining_accounts@.map_values(|a: AccountMeta| a.pubkey),
        callback_writable: ctx.remaining_accounts@.map_values(|a: AccountMeta| a.is_writable),
        status: RequestStatus::Pending,
        created_at: ctx.unix_timestamp,
        min_votes,
        approval_threshold,
        votes: Seq::empty(),
        winning_hash: None,
        total_votes_cast: 0,
    }
}

/// Validates the bounds and builds a new pending record that captures the
/// declared callback accounts verbatim, with the creation notification.
pub fn create_request(
    ctx: &CreateRequest,
    request_id: String,
    provider: String,
    model_id: String,
    messages: Vec<Message>,
    min_votes: u8,
    approval_threshold: u8,
) -> (r: Result<(LLMRequest, RequestCreated), ErrorCode>)
    ensures
        match create_error(
            provider@,
            model_id@,
            messages@.len(),
            ctx.remaining_accounts@.len(),
            min_votes,
            approval_threshold,
        ) {
            Some(e) => r == Err::<(LLMRequest, RequestCreated), ErrorCode>(e),
            None => r is Ok && {
                let (req, ev) = r->Ok_0;
                &&& req@ == created_model(
                    request_id@,
                    *ctx,
                    provider@,
                    model_id@,
                    min_votes,
                    approval_threshold,
                )
                &&& req@.wf()
                &&& ev.request_id@ == request_id@
                &&& ev.caller_program == ctx.caller_program
                &&& ev.provider@ == provider@
                &&& ev.model_id@ == model_id@
                &&& ev.messages@ == messages@
                &&& ev.min_votes == min_votes
                &&& ev.approval_threshold == approval_threshold
            },
        },
{
    if provider.as_str().as_bytes().len() > MAX_NAME_LEN {
        return Err(ErrorCode::ProviderTooLong);
    }
    if model_id.as_str().as_bytes().len() > MAX_NAME_LEN {
        return Err(ErrorCode::ModelIdTooLong);
    }
    if messages.len() > MAX_MESSAGES {
        return Err(ErrorCode::TooManyMessages);
    }
    if ctx.remaining_accounts.len() > MAX_CALLBACK_ACCOUNTS {
        return Err(ErrorCode::TooManyAccounts);
    }
    if min_votes == 0 {
        return Err(ErrorCode::InvalidMinVotes);
    }
    if approval_threshold == 0 || approval_threshold > 100 {
        return Err(ErrorCode::InvalidApprovalThreshold);
    }
    let mut callback_accounts: Vec<Identity> = Vec::new();
    let mut callback_writable: Vec<bool> = Vec::new();
    let mut i: usize = 0;
    while i < ctx.remaining_accounts.len()
        invariant
            0 <= i <= ctx.remaining_accounts@.len(),
            callback_accounts@ == ctx.remaining_accounts@.take(i as int).map_values(
                |a: AccountMeta| a.pubkey,
            ),
            callback_writable@ == ctx.remaining_accounts@.take(i as int).map_values(
                |a: AccountMeta| a.is_writable,
            ),
        decreases ctx.remaining_accounts@.len() - i,
    {
        let account = ctx.remaining_accounts[i];
        callback_accounts.push(account.pubkey);
        callback_writable.push(account.is_writable);
        assert(ctx.remaining_accounts@.take(i as int + 1).map_values(|a: AccountMeta| a.pubkey)
            =~= callback_accounts@);
        assert(ctx.remaining_accounts@.take(i as int + 1).map_values(
            |a: AccountMeta| a.is_writable,
        ) =~= callback_writable@);
        i = i + 1;
    }
    assert(ctx.remaining_accounts@.take(i as int) =~= ctx.remaining_accounts@);
    let request = LLMRequest {
        id: request_id.clone(),
        caller_program: ctx.caller_program,
        provider: provider.clone(),
        model_id: model_id.clone(),
        callback_accounts,
        callback_writable,
        status: RequestStatus::Pending,
        created_at: ctx.unix_timestamp,
        min_votes,
        approval_threshold,
        votes: Vec::new(),
        winning_hash: None,
        total_votes_cast: 0,
    };
    assert(request@.votes =~= Seq::<OracleVote>::empty());
    let event = RequestCreated {
        request_id,
        caller_program: ctx.caller_program,
        provider,
        model_id,
        messages,
        min_votes,
        approval_threshold,
    };
    Ok((request, event))
}

/// True when the leading hash of `votes` holds at least `min_votes` votes and
/// at least `approval_threshold` percent (rounded down) of all of them.
pub open spec fn resolves(votes: Seq<OracleVote>, min_votes: u8, approval_threshold: u8) -> bool {
    let c = leader_of(votes).1 as int;
    c >= min_votes as int && (c * 100) / (votes.len() as int) >= approval_threshold as int
}

/// The effect of one vote on a record: the error, or the record after it.
pub open spec fn vote_step(r: RequestModel, oracle: Identity, response_hash: ResultHash) -> Result<
    RequestModel,
    ErrorCode,
> {
    if r.status != RequestStatus::Pending {
        Err(ErrorCode::VotingClosed)
    } else if r.votes.len() >= MAX_ORACLES {
        Err(ErrorCode::TooManyVotes)
    } else if has_voted(r.votes, oracle) {
        Err(ErrorCode::OracleAlreadyVoted)
    } else {
        let votes = r.votes.push(OracleVote { oracle, response_hash });
        let total = (r.total_votes_cast + 1) as u8;
        if resolves(votes, r.min_votes, r.approval_threshold) {
            Ok(
                RequestModel {
                    votes,
                    total_votes_cast: total,
                    winning_hash: Some(leader_of(votes).0),
                    status: RequestStatus::VotingCompleted,
                    ..r
                },
            )
        } else {
            Ok(RequestModel { votes, total_votes_cast: total, ..r })
        }
    }
}

/// Records one oracle's vote and closes the vote when a hash wins.
pub fn submit_vote(request: &mut LLMRequest, ctx: &SubmitVote, response_hash: ResultHash) -> (r:
    Result<Option<VotingCompleted>, ErrorCode>)
    requires
        old(request)@.wf(),
    ensures
        final(request)@.wf(),
        match vote_step(old(request)@, ctx.oracle, response_hash) {
            Ok(m) => final(request)@ == m && r is Ok && (r->Ok_0 is Some <==> m.status
                == RequestStatus::VotingCompleted) && (r->Ok_0 matches Some(ev) ==> {
                &&& ev.request_id@ == m.id
                &&& m.winning_hash == Some(ev.winning_hash)
                &&& ev.vote_count == leader_of(m.votes).1
                &&& ev.total_votes == m.total_votes_cast
            }),
            Err(e) => r == Err::<Option<VotingCompleted>, ErrorCode>(e) && final(request)@ == old(
                request,
            )@,
        },
{
    if request.status != RequestStatus::Pending {
        return Err(ErrorCode::VotingClosed);
    }
    if request.votes.len() >= MAX_ORACLES {
        return Err(ErrorCode::TooManyVotes);
    }
    let oracle_key = ctx.oracle;
    let mut i: usize = 0;
    while i < request.votes.len()
        invariant
            0 <= i <= request.votes@.len(),
            request@ == old(request)@,
            old(request)@.wf(),
            oracle_key == ctx.oracle,
            request.status == RequestStatus::Pending,
            request.votes@.len() < MAX_ORACLES,
            forall|k: int| 0 <= k < i ==> request.votes@[k].oracle != oracle_key,
        decreases request.votes@.len() - i,
    {
        if eq32(&request.votes[i].oracle, &oracle_key) {
            assert(has_voted(request.votes@, oracle_key)) by {
                assert(request.votes@[i as int].oracle == oracle_key);
            }
            return Err(ErrorCode::OracleAlreadyVoted);
        }
        i = i + 1;
    }
    let ghost before = request@;
    request.votes.push(OracleVote { oracle: oracle_key, response_hash });
    request.total_votes_cast = request.total_votes_cast + 1;
    let ghost votes = request.votes@;
    assert(votes =~= before.votes.push(OracleVote { oracle: oracle_key, response_hash }));
    let vote_results = count_votes(&request.votes);
    proof {
        assert(spec_tally(votes).len() > 0) by {
            assert(distinct_hashes(votes).len() > 0);
        }
        lemma_best_index(spec_tally(votes));
    }
    let best = pick_leader(&vote_results);
    let (winning_hash, vote_count) = vote_results[best];
    let total_votes = request.total_votes_cast as u64;
    let vote_percentage = ((vote_count as u64) * 100) / total_votes;
    if vote_count >= request.min_votes && vote_percentage >= request.approval_threshold as u64 {
        request.winning_hash = Some(winning_hash);
        request.status = RequestStatus::VotingCompleted;
        let event = VotingCompleted {
            request_id: request.id.clone(),
            winning_hash,
            vote_count,
            total_votes: request.total_votes_cast,
        };
        return Ok(Some(event));
    }
    Ok(None)
}

/// The keys of the accounts passed to a fulfilment, in order.
pub open spec fn provided_keys(accounts: Seq<AccountMeta>) -> Seq<Identity> {
    accounts.map_values(|a: AccountMeta| a.pubkey)
}

/// Which check, if any, a fulfilment fails; checked in this order.
pub open spec fn fulfill_error(
    r: RequestModel,
    callback_program: Identity,
    keys: Seq<Identity>,
    response_hash: Seq<u8>,
    payload_len: nat,
) -> Option<ErrorCode> {
    if r.status != RequestStatus::VotingCompleted {
        Some(ErrorCode::VotingNotCompleted)
    } else if r.winning_hash is None {
        Some(ErrorCode::NoWinningHash)
    } else if r.winning_hash->0@ != response_hash {
        Some(ErrorCode::ResponseHashMismatch)
    } else if callback_program != r.caller_program {
        Some(ErrorCode::CallbackProgramMismatch)
    } else if keys.len() != r.callback_accounts.len() {
        Some(ErrorCode::AccountCountMismatch)
    } else if keys != r.callback_accounts {
        Some(ErrorCode::AccountMismatch)
    } else if callback_too_long(r.id, payload_len) {
        Some(ErrorCode::FieldTooLong)
    } else {
        None
    }
}

/// The effect of a fulfilment on a record: the error, or the record after it.
pub open spec fn fulfill_step(
    r: RequestModel,
    callback_program: Identity,
    keys: Seq<Identity>,
    response_hash: Seq<u8>,
    payload_len: nat,
) -> Result<RequestModel, ErrorCode> {
    match fulfill_error(r, callback_program, keys, response_hash, payload_len) {
        Some(e) => Err(e),
        None => Ok(RequestModel { status: RequestStatus::Fulfilled, ..r }),
    }
}

/// The outcome of a fulfilment whose payload hashes to `response_hash`.
pub open spec fn fulfill_outcome(
    old_r: RequestModel,
    new_r: RequestModel,
    ctx: FulfillRequest,
    response: Seq<u8>,
    response_hash: Seq<u8>,
    r: Result<(Instruction, RequestFulfilled), ErrorCode>,
) -> bool {
    match fulfill_step(
        old_r,
        ctx.callback_program,
        provided_keys(ctx.remaining_accounts@),
        response_hash,
        response.len(),
    ) {
        Ok(m) => new_r == m && r is Ok && {
            let (ix, ev) = r->Ok_0;
            &&& ix.program_id == m.caller_program
            &&& ix.accounts@ == callback_metas(m.callback_accounts, m.callback_writable)
            &&& ix.data@ == callback_data(m.id, response)
            &&& ev.request_id@ == m.id
            &&& ev.response_length == response.len()
        },
        Err(e) => r == Err::<(Instruction, RequestFulfilled), ErrorCode>(e) && new_r == old_r,
    }
}

/// Checks a fulfilment against the record, given the hash of its payload,
/// and on success builds the callback and marks the record fulfilled. The
/// host persists the record only if the callback then succeeds.
pub fn fulfill_with_hash(
    request: &mut LLMRequest,
    ctx: &FulfillRequest,
    response: &Vec<u8>,
    response_hash: ResultHash,
) -> (r: Result<(Instruction, RequestFulfilled), ErrorCode>)
    requires
        old(request)@.wf(),
    ensures
        final(request)@.wf(),
        fulfill_outcome(old(request)@, final(request)@, *ctx, response@, response_hash@, r),
{
    if request.status != RequestStatus::VotingCompleted {
        return Err(ErrorCode::VotingNotCompleted);
    }
    let winning_hash = match request.winning_hash {
        Some(h) => h,
        None => {
            return Err(ErrorCode::NoWinningHash);
        },
    };
    if !eq32(&response_hash, &winning_hash) {
        assert(response_hash@ != winning_hash@) by {
            if response_hash@ == winning_hash@ {
                assert(response_hash =~= winning_hash) by {
                    assert forall|k: int| 0 <= k < 32 implies response_hash[k] == winning_hash[k] by {
                        assert(response_hash[k] == response_hash@[k]);
                        assert(winning_hash[k] == winning_hash@[k]);
                    }
                }
            }
        }
        return Err(ErrorCode::ResponseHashMismatch);
    }
    if !eq32(&ctx.callback_program, &request.caller_program) {
        return Err(ErrorCode::CallbackProgramMismatch);
    }
    if ctx.remaining_accounts.len() != request.callback_accounts.len() {
        return Err(ErrorCode::AccountCountMismatch);
    }
    let ghost keys = provided_keys(ctx.remaining_accounts@);
    let mut i: usize = 0;
    while i < request.callback_accounts.len()
        invariant
            0 <= i <= request.callback_accounts@.len(),
            request@ == old(request)@,
            old(request)@.wf(),
            request.status == RequestStatus::VotingCompleted,
            request.winning_hash == Some(winning_hash),
            response_hash == winning_hash,
            ctx.callback_program == request.caller_program,
            keys == provided_keys(ctx.remaining_accounts@),
            keys.len() == request.callback_accounts@.len(),
            forall|k: int| 0 <= k < i ==> keys[k] == request.callback_accounts@[k],
        decreases request.callback_accounts@.len() - i,
    {
        if !eq32(&ctx.remaining_accounts[i].pubkey, &request.callback_accounts[i]) {
            assert(keys[i as int] != request.callback_accounts@[i as int]);
            return Err(ErrorCode::AccountMismatch);
        }
        i = i + 1;
    }
    assert(keys =~= request.callback_accounts@);
    let ix = match build_callback(request, response) {
        Ok(ix) => ix,
        Err(e) => {
            return Err(e);
        },
    };
    request.status = RequestStatus::Fulfilled;
    let event = RequestFulfilled {
        request_id: request.id.clone(),
        response_length: response.len() as u64,
    };
    Ok((ix, event))
}

/// Fulfils a request with `response`: its ledger hash must equal the winning
/// hash, and the caller and the accounts must be the ones the requester
/// declared.
pub fn fulfill_request(request: &mut LLMRequest, ctx: &FulfillRequest, response: Vec<u8>) -> (r:
    Result<(Instruction, RequestFulfilled), ErrorCode>)
    requires
        old(request)@.wf(),
    ensures
        final(request)@.wf(),
        fulfill_outcome(
            old(request)@,
            final(request)@,
            *ctx,
            response@,
            ledger_hash_of(response@),
            r,
        ),
{
    let response_hash = ledger_hash(response.as_slice());
    fulfill_with_hash(request, ctx, &response, response_hash)
}

} // verus!
