use coolrouter::broker::{
    create_request, fulfill_request, fulfill_with_hash, submit_vote, CreateRequest,
    FulfillRequest, SubmitVote,
};
use coolrouter::state::{AccountMeta, ErrorCode, LLMRequest, Message, RequestStatus};

const HASH_ANSWER_A: [u8; 32] = [
    99, 153, 43, 30, 224, 96, 164, 22, 242, 131, 13, 149, 94, 20, 49, 83, 56, 47, 196, 230, 103,
    43, 152, 55, 88, 179, 122, 194, 61, 113, 161, 76,
];
const HASH_ANSWER_B: [u8; 32] = [
    205, 112, 121, 196, 5, 126, 61, 25, 217, 20, 48, 55, 213, 107, 156, 83, 134, 4, 254, 10, 14,
    137, 194, 192, 169, 112, 84, 150, 14, 1, 171, 140,
];
const LLM_CALLBACK_TAG: [u8; 8] = [231, 56, 122, 107, 10, 129, 88, 255];

fn key(b: u8) -> [u8; 32] {
    [b; 32]
}

fn account(b: u8, writable: bool) -> AccountMeta {
    AccountMeta { pubkey: key(b), is_signer: false, is_writable: writable }
}

fn creation(accounts: Vec<AccountMeta>) -> CreateRequest {
    CreateRequest { caller_program: key(200), remaining_accounts: accounts, unix_timestamp: 1_700_000_000 }
}

fn message(role: &str, content: &str) -> Message {
    Message { role: role.to_string(), content: content.to_string() }
}

fn new_request(min_votes: u8, threshold: u8) -> LLMRequest {
    let ctx = creation(vec![account(10, true), account(11, false)]);
    let (req, _) = create_request(
        &ctx,
        "req-1".to_string(),
        "openai".to_string(),
        "gpt-4".to_string(),
        vec![message("user", "hi")],
        min_votes,
        threshold,
    )
    .unwrap();
    req
}

fn vote(req: &mut LLMRequest, oracle: u8, h: [u8; 32]) -> Result<bool, ErrorCode> {
    submit_vote(req, &SubmitVote { oracle: key(oracle) }, h).map(|e| e.is_some())
}

fn resolved_on_a() -> LLMRequest {
    let mut req = new_request(2, 60);
    vote(&mut req, 1, HASH_ANSWER_A).unwrap();
    vote(&mut req, 2, HASH_ANSWER_A).unwrap();
    assert_eq!(req.status, RequestStatus::VotingCompleted);
    req
}

fn fulfil_ctx(accounts: Vec<AccountMeta>) -> FulfillRequest {
    FulfillRequest { callback_program: key(200), remaining_accounts: accounts }
}

#[test]
fn created_record_starts_pending() {
    let ctx = creation(vec![account(10, true), account(11, false)]);
    let (req, ev) = create_request(
        &ctx,
        "req-1".to_string(),
        "openai".to_string(),
        "gpt-4".to_string(),
        vec![message("user", "hi")],
        2,
        60,
    )
    .unwrap();
    assert_eq!(req.status, RequestStatus::Pending);
    assert_eq!(req.total_votes_cast, 0);
    assert!(req.votes.is_empty());
    assert_eq!(req.winning_hash, None);
    assert_eq!(req.callback_accounts, vec![key(10), key(11)]);
    assert_eq!(req.callback_writable, vec![true, false]);
    assert_eq!(req.caller_program, key(200));
    assert_eq!(req.created_at, 1_700_000_000);
    assert_eq!(ev.request_id, "req-1");
    assert_eq!(ev.messages.len(), 1);
    assert_eq!(ev.min_votes, 2);
    assert_eq!(ev.approval_threshold, 60);
}

fn create_with(provider: &str, model: &str, n_messages: usize, n_accounts: usize, min: u8, thr: u8) -> Result<(), ErrorCode> {
    let accounts = (0..n_accounts).map(|i| account(i as u8, true)).collect();
    let messages = (0..n_messages).map(|_| message("user", "x")).collect();
    create_request(&creation(accounts), "id".to_string(), provider.to_string(), model.to_string(), messages, min, thr)
        .map(|_| ())
}

#[test]
fn creation_bounds_each_fail_distinctly() {
    let long = "p".repeat(65);
    let max = "p".repeat(64);
    assert_eq!(create_with(&long, "m", 1, 1, 1, 50), Err(ErrorCode::ProviderTooLong));
    assert_eq!(create_with("p", &long, 1, 1, 1, 50), Err(ErrorCode::ModelIdTooLong));
    assert_eq!(create_with("p", "m", 51, 1, 1, 50), Err(ErrorCode::TooManyMessages));
    assert_eq!(create_with("p", "m", 1, 33, 1, 50), Err(ErrorCode::TooManyAccounts));
    assert_eq!(create_with("p", "m", 1, 1, 0, 50), Err(ErrorCode::InvalidMinVotes));
    assert_eq!(create_with("p", "m", 1, 1, 1, 0), Err(ErrorCode::InvalidApprovalThreshold));
    assert_eq!(create_with("p", "m", 1, 1, 1, 101), Err(ErrorCode::InvalidApprovalThreshold));
    assert_eq!(create_with(&max, &max, 50, 32, 1, 100), Ok(()));
    assert_eq!(create_with("p", "m", 0, 0, 1, 1), Ok(()));
}

#[test]
fn provider_bound_counts_bytes() {
    // 32 two-byte characters: 64 bytes, accepted; one more is 66 bytes.
    let ok = "é".repeat(32);
    let too_long = "é".repeat(33);
    assert_eq!(create_with(&ok, "m", 1, 1, 1, 50), Ok(()));
    assert_eq!(create_with(&too_long, "m", 1, 1, 1, 50), Err(ErrorCode::ProviderTooLong));
}

#[test]
fn second_vote_from_same_oracle_fails() {
    let mut req = new_request(3, 60);
    assert_eq!(vote(&mut req, 1, HASH_ANSWER_A), Ok(false));
    let before = req.clone();
    assert_eq!(vote(&mut req, 1, HASH_ANSWER_B), Err(ErrorCode::OracleAlreadyVoted));
    assert_eq!(vote(&mut req, 1, HASH_ANSWER_A), Err(ErrorCode::OracleAlreadyVoted));
    assert_eq!(req.votes, before.votes);
    assert_eq!(req.total_votes_cast, 1);
    assert_eq!(req.status, RequestStatus::Pending);
}

#[test]
fn resolves_at_the_second_of_three_votes() {
    let mut req = new_request(2, 60);
    assert_eq!(vote(&mut req, 1, HASH_ANSWER_A), Ok(false));
    assert_eq!(req.status, RequestStatus::Pending);
    let ev = submit_vote(&mut req, &SubmitVote { oracle: key(2) }, HASH_ANSWER_A).unwrap().unwrap();
    assert_eq!(req.status, RequestStatus::VotingCompleted);
    assert_eq!(req.winning_hash, Some(HASH_ANSWER_A));
    assert_eq!(ev.winning_hash, HASH_ANSWER_A);
    assert_eq!(ev.vote_count, 2);
    assert_eq!(ev.total_votes, 2);
    assert_eq!(ev.request_id, "req-1");
    assert_eq!(vote(&mut req, 3, HASH_ANSWER_B), Err(ErrorCode::VotingClosed));
    assert_eq!(req.total_votes_cast, 2);
}

#[test]
fn full_threshold_blocks_on_dissent() {
    let mut req = new_request(3, 100);
    assert_eq!(vote(&mut req, 1, HASH_ANSWER_A), Ok(false));
    assert_eq!(vote(&mut req, 2, HASH_ANSWER_A), Ok(false));
    assert_eq!(vote(&mut req, 3, HASH_ANSWER_B), Ok(false));
    assert_eq!(req.status, RequestStatus::Pending);
    assert_eq!(req.winning_hash, None);
    assert_eq!(vote(&mut req, 4, HASH_ANSWER_A), Ok(false));
    assert_eq!(req.status, RequestStatus::Pending);
}

#[test]
fn full_threshold_resolves_when_unanimous() {
    let mut req = new_request(3, 100);
    vote(&mut req, 1, HASH_ANSWER_B).unwrap();
    vote(&mut req, 2, HASH_ANSWER_B).unwrap();
    assert_eq!(vote(&mut req, 3, HASH_ANSWER_B), Ok(true));
    assert_eq!(req.winning_hash, Some(HASH_ANSWER_B));
}

#[test]
fn percentage_is_rounded_down() {
    // 2 of 3 is 66 percent: enough for 66, not for 67.
    let mut req = new_request(2, 67);
    vote(&mut req, 1, HASH_ANSWER_A).unwrap();
    vote(&mut req, 2, HASH_ANSWER_B).unwrap();
    assert_eq!(vote(&mut req, 3, HASH_ANSWER_A), Ok(false));
    let mut req = new_request(2, 66);
    vote(&mut req, 1, HASH_ANSWER_A).unwrap();
    vote(&mut req, 2, HASH_ANSWER_B).unwrap();
    assert_eq!(vote(&mut req, 3, HASH_ANSWER_A), Ok(true));
    assert_eq!(req.winning_hash, Some(HASH_ANSWER_A));
}

#[test]
fn at_most_thirty_two_votes() {
    let mut req = new_request(1, 100);
    req.min_votes = 255;
    for i in 0..32u8 {
        assert_eq!(vote(&mut req, i, HASH_ANSWER_A), Ok(false));
    }
    assert_eq!(vote(&mut req, 99, HASH_ANSWER_A), Err(ErrorCode::TooManyVotes));
    assert_eq!(req.total_votes_cast, 32);
}

#[test]
fn fulfil_delivers_the_winning_payload_once() {
    let mut req = resolved_on_a();
    let ctx = fulfil_ctx(vec![account(10, false), account(11, true)]);
    let (ix, ev) = fulfill_request(&mut req, &ctx, b"answer A".to_vec()).unwrap();
    assert_eq!(req.status, RequestStatus::Fulfilled);
    assert_eq!(ev.request_id, "req-1");
    assert_eq!(ev.response_length, 8);
    assert_eq!(ix.program_id, key(200));
    assert_eq!(ix.accounts, vec![account(10, true), account(11, false)]);
    let mut data = LLM_CALLBACK_TAG.to_vec();
    data.extend_from_slice(&[5, 0, 0, 0]);
    data.extend_from_slice(b"req-1");
    data.extend_from_slice(&[8, 0, 0, 0]);
    data.extend_from_slice(b"answer A");
    assert_eq!(ix.data, data);
    let again = fulfill_request(&mut req, &ctx, b"answer A".to_vec());
    assert_eq!(again.err(), Some(ErrorCode::VotingNotCompleted));
    assert_eq!(req.status, RequestStatus::Fulfilled);
}

#[test]
fn fulfil_rejects_other_payload() {
    let mut req = resolved_on_a();
    let ctx = fulfil_ctx(vec![account(10, true), account(11, false)]);
    let r = fulfill_request(&mut req, &ctx, b"answer B".to_vec());
    assert_eq!(r.err(), Some(ErrorCode::ResponseHashMismatch));
    assert_eq!(req.status, RequestStatus::VotingCompleted);
    let r = fulfill_with_hash(&mut req, &ctx, &b"answer A".to_vec(), HASH_ANSWER_B);
    assert_eq!(r.err(), Some(ErrorCode::ResponseHashMismatch));
    assert_eq!(req.status, RequestStatus::VotingCompleted);
}

#[test]
fn fulfil_before_resolution_fails() {
    let mut req = new_request(2, 60);
    vote(&mut req, 1, HASH_ANSWER_A).unwrap();
    let ctx = fulfil_ctx(vec![account(10, true), account(11, false)]);
    let r = fulfill_request(&mut req, &ctx, b"answer A".to_vec());
    assert_eq!(r.err(), Some(ErrorCode::VotingNotCompleted));
    assert_eq!(req.status, RequestStatus::Pending);
}

#[test]
fn completed_record_without_winning_hash_is_malformed() {
    let mut req = resolved_on_a();
    assert!(req.is_well_formed());
    req.winning_hash = None;
    assert!(!req.is_well_formed());
    let mut req = new_request(2, 60);
    vote(&mut req, 1, HASH_ANSWER_A).unwrap();
    assert!(req.is_well_formed());
    req.votes.push(req.votes[0]);
    req.total_votes_cast = 2;
    assert!(!req.is_well_formed());
}

#[test]
fn fulfil_rejects_other_program() {
    let mut req = resolved_on_a();
    let ctx = FulfillRequest {
        callback_program: key(201),
        remaining_accounts: vec![account(10, true), account(11, false)],
    };
    let r = fulfill_request(&mut req, &ctx, b"answer A".to_vec());
    assert_eq!(r.err(), Some(ErrorCode::CallbackProgramMismatch));
    assert_eq!(req.status, RequestStatus::VotingCompleted);
}

#[test]
fn fulfil_rejects_changed_accounts() {
    let cases: Vec<(Vec<AccountMeta>, ErrorCode)> = vec![
        (vec![account(10, true), account(11, false), account(12, true)], ErrorCode::AccountCountMismatch),
        (vec![account(10, true)], ErrorCode::AccountCountMismatch),
        (vec![account(11, false), account(10, true)], ErrorCode::AccountMismatch),
        (vec![account(10, true), account(66, false)], ErrorCode::AccountMismatch),
    ];
    for (accounts, err) in cases {
        let mut req = resolved_on_a();
        let r = fulfill_request(&mut req, &fulfil_ctx(accounts), b"answer A".to_vec());
        assert_eq!(r.err(), Some(err));
        assert_eq!(req.status, RequestStatus::VotingCompleted);
    }
}
