use vstd::prelude::*;

verus! {

/// A 32-byte account or program identity.
pub type Identity = [u8; 32];

/// A 32-byte result hash.
pub type ResultHash = [u8; 32];

/// Most accounts a callback may address.
pub const MAX_CALLBACK_ACCOUNTS: usize = 32;

/// Most oracles that may vote on one request.
pub const MAX_ORACLES: usize = 32;

/// Longest provider or model name, in bytes.
pub const MAX_NAME_LEN: usize = 64;

/// Most messages a request may carry.
pub const MAX_MESSAGES: usize = 50;

#[derive(Clone, Copy, Debug, PartialEq, Eq, Structural)]
pub enum RequestStatus {
    Pending,
    VotingCompleted,
    Fulfilled,
}

/// One oracle's attestation.
#[derive(Clone, Copy, Debug, PartialEq, Eq)]
pub struct OracleVote {
    pub oracle: Identity,
    pub response_hash: ResultHash,
}

/// One chat message of the task.
#[derive(Clone, Debug)]
pub struct Message {
    pub role: String,
    pub content: String,
}

/// An account as the host hands it over: its key and its flags.
#[derive(Clone, Copy, Debug, PartialEq, Eq)]
pub struct AccountMeta {
    pub pubkey: Identity,
    pub is_signer: bool,
    pub is_writable: bool,
}

/// A cross-program call: the program, the accounts in order, and the data.
#[derive(Clone, Debug)]
pub struct Instruction {
    pub program_id: Identity,
    pub accounts: Vec<AccountMeta>,
    pub data: Vec<u8>,
}

#[derive(Clone, Copy, Debug, PartialEq, Eq, Structural)]
pub enum ErrorCode {
    TooManyAccounts,
    AccountMismatch,
    VotingClosed,
    CallbackProgramMismatch,
    AccountCountMismatch,
    ProviderTooLong,
    ModelIdTooLong,
    TooManyMessages,
    InvalidMinVotes,
    InvalidApprovalThreshold,
    OracleAlreadyVoted,
    TooManyVotes,
    VotingNotCompleted,
    NoWinningHash,
    ResponseHashMismatch,
    /// A field is longer than a 32-bit length prefix can state.
    FieldTooLong,
}

/// The persistent record of one request.
#[derive(Clone, Debug)]
pub struct LLMRequest {
    pub id: String,
    pub caller_program: Identity,
    pub provider: String,
    pub model_id: String,
    pub callback_accounts: Vec<Identity>,
    pub callback_writable: Vec<bool>,
    pub status: RequestStatus,
    pub created_at: i64,
    pub min_votes: u8,
    pub approval_threshold: u8,
    pub votes: Vec<OracleVote>,
    pub winning_hash: Option<ResultHash>,
    pub total_votes_cast: u8,
}

/// The mathematical value of a request record.
pub struct RequestModel {
    pub id: Seq<char>,
    pub caller_program: Identity,
    pub provider: Seq<char>,
    pub model_id: Seq<char>,
    pub callback_accounts: Seq<Identity>,
    pub callback_writable: Seq<bool>,
    pub status: RequestStatus,
    pub created_at: i64,
    pub min_votes: u8,
    pub approval_threshold: u8,
    pub votes: Seq<OracleVote>,
    pub winning_hash: Option<ResultHash>,
    pub total_votes_cast: u8,
}

impl View for LLMRequest {
    type V = RequestModel;

    open spec fn view(&self) -> RequestModel {
        RequestModel {
            id: self.id@,
            caller_program: self.caller_program,
            provider: self.provider@,
            model_id: self.model_id@,
            callback_accounts: self.callback_accounts@,
            callback_writable: self.callback_writable@,
            status: self.status,
            created_at: self.created_at,
            min_votes: self.min_votes,
            approval_threshold: self.approval_threshold,
            votes: self.votes@,
            winning_hash: self.winning_hash,
            total_votes_cast: self.total_votes_cast,
        }
    }
}

/// True when `oracle` has a vote in `votes`.
pub open spec fn has_voted(votes: Seq<OracleVote>, oracle: Identity) -> bool {
    exists|i: int| 0 <= i < votes.len() && #[trigger] votes[i].oracle == oracle
}

/// No oracle has two votes.
pub open spec fn oracles_unique(votes: Seq<OracleVote>) -> bool {
    forall|i: int, j: int|
        0 <= i < votes.len() && 0 <= j < votes.len() && i != j ==> #[trigger] votes[i].oracle
            != #[trigger] votes[j].oracle
}

impl RequestModel {
    /// The record's invariant.
    pub open spec fn wf(self) -> bool {
        &&& self.votes.len() <= MAX_ORACLES
        &&& self.total_votes_cast as int == self.votes.len()
        &&& oracles_unique(self.votes)
        &&& (self.status == RequestStatus::Pending <==> self.winning_hash is None)
        &&& self.callback_accounts.len() == self.callback_writable.len()
        &&& self.callback_accounts.len() <= MAX_CALLBACK_ACCOUNTS
        &&& self.min_votes >= 1
        &&& 1 <= self.approval_threshold <= 100
    }
}

impl LLMRequest {
    /// Tests the record's invariant, for records that come from outside.
    pub fn is_well_formed(&self) -> (r: bool)
        ensures
            r == self@.wf(),
    {
        if self.votes.len() > MAX_ORACLES || self.total_votes_cast as usize != self.votes.len() {
            return false;
        }
        if self.status == RequestStatus::Pending {
            if self.winning_hash.is_some() {
                return false;
            }
        } else if self.winning_hash.is_none() {
            return false;
        }
        if self.callback_accounts.len() != self.callback_writable.len()
            || self.callback_accounts.len() > MAX_CALLBACK_ACCOUNTS {
            return false;
        }
        if self.min_votes < 1 || self.approval_threshold < 1 || self.approval_threshold > 100 {
            return false;
        }
        let mut i: usize = 0;
        while i < self.votes.len()
            invariant
                0 <= i <= self.votes@.len(),
                forall|a: int, b: int|
                    0 <= a < i && 0 <= b < self.votes@.len() && a != b ==> #[trigger] self.votes@[a].oracle
                        != #[trigger] self.votes@[b].oracle,
            decreases self.votes@.len() - i,
        {
            let mut j: usize = 0;
            while j < self.votes.len()
                invariant
                    0 <= i < self.votes@.len(),
                    0 <= j <= self.votes@.len(),
                    forall|a: int, b: int|
                        0 <= a < i && 0 <= b < self.votes@.len() && a != b ==> #[trigger] self.votes@[a].oracle
                            != #[trigger] self.votes@[b].oracle,
                    forall|b: int| 0 <= b < j && b != i ==> self.votes@[i as int].oracle != #[trigger] self.votes@[b].oracle,
                decreases self.votes@.len() - j,
            {
                if j != i && eq32(&self.votes[i].oracle, &self.votes[j].oracle) {
                    assert(!oracles_unique(self.votes@)) by {
                        assert(self.votes@[i as int].oracle == self.votes@[j as int].oracle);
                    }
                    return false;
                }
                j = j + 1;
            }
            i = i + 1;
        }
        true
    }
}

/// True when the two 32-byte values are equal.
pub fn eq32(a: &[u8; 32], b: &[u8; 32]) -> (r: bool)
    ensures
        r == (*a == *b),
{
    let mut i: usize = 0;
    while i < 32
        invariant
            0 <= i <= 32,
            forall|k: int| 0 <= k < i ==> a[k] == b[k],
        decreases 32 - i,
    {
        if a[i] != b[i] {
            return false;
        }
        i = i + 1;
    }
    assert(a@ =~= b@);
    assert(*a =~= *b);
    true
}

} // verus!
