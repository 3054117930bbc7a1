use coolrouter::consumer::{
    get_response, llm_callback, request_llm_response, ConsumerState, ErrorCode, GetResponse,
    RequestLLMResponse,
};
use coolrouter::cpi::{create_llm_request, CoolRouterCPI};
use coolrouter::state::{AccountMeta, Message};

const CREATE_REQUEST_TAG: [u8; 8] = [219, 191, 93, 237, 18, 44, 42, 84];

fn acct(b: u8, signer: bool, writable: bool) -> AccountMeta {
    AccountMeta { pubkey: [b; 32], is_signer: signer, is_writable: writable }
}

fn prefixed(b: &[u8]) -> Vec<u8> {
    let mut out = (b.len() as u32).to_le_bytes().to_vec();
    out.extend_from_slice(b);
    out
}

#[test]
fn discriminator_is_hash_prefix() {
    assert_eq!(CoolRouterCPI::calculate_discriminator("global:create_request"), CREATE_REQUEST_TAG);
    assert_eq!(
        CoolRouterCPI::calculate_discriminator("global:llm_callback"),
        [231, 56, 122, 107, 10, 129, 88, 255]
    );
}

#[test]
fn creation_data_layout() {
    let msgs = vec![Message { role: "user".to_string(), content: "hello".to_string() }];
    let data = CoolRouterCPI::serialize_create_request("r1", "openai", "gpt-4", &msgs, 3, 67).unwrap();
    let mut expected = CREATE_REQUEST_TAG.to_vec();
    expected.extend(prefixed(b"r1"));
    expected.extend(prefixed(b"openai"));
    expected.extend(prefixed(b"gpt-4"));
    expected.extend_from_slice(&[1, 0, 0, 0]);
    expected.extend(prefixed(b"user"));
    expected.extend(prefixed(b"hello"));
    expected.extend_from_slice(&[3, 67]);
    assert_eq!(data, expected);
}

#[test]
fn creation_call_accounts() {
    let cpi = CoolRouterCPI::new(acct(1, false, true), acct(2, true, true), acct(3, false, false), acct(4, false, false), [9; 32])
        .add_callback_account(acct(5, false, false))
        .add_callback_accounts(vec![acct(6, true, false)]);
    let ix = cpi.create_request("r".to_string(), "p".to_string(), "m".to_string(), vec![], 1, 1).unwrap();
    assert_eq!(ix.program_id, [9; 32]);
    assert_eq!(
        ix.accounts,
        vec![
            acct(1, false, true),
            acct(2, true, true),
            acct(3, false, false),
            acct(4, false, false),
            acct(5, false, true),
            acct(6, false, true),
        ]
    );
    let mut expected = CREATE_REQUEST_TAG.to_vec();
    expected.extend(prefixed(b"r"));
    expected.extend(prefixed(b"p"));
    expected.extend(prefixed(b"m"));
    expected.extend_from_slice(&[0, 0, 0, 0, 1, 1]);
    assert_eq!(ix.data, expected);
    let direct = create_llm_request(acct(1, false, true), acct(2, true, true), acct(3, false, false), acct(4, false, false), [9; 32], vec![acct(5, false, false), acct(6, true, false)], "r".to_string(), "p".to_string(), "m".to_string(), vec![], 1, 1).unwrap();
    assert_eq!(direct.accounts, ix.accounts);
    assert_eq!(direct.data, ix.data);
}

fn consumer_ctx() -> RequestLLMResponse {
    RequestLLMResponse {
        consumer_state: acct(20, false, true),
        authority: acct(21, true, true),
        request_pda: acct(22, false, true),
        consumer_program: acct(23, false, false),
        coolrouter_program: [24; 32],
        system_program: acct(0, false, false),
    }
}

#[test]
fn consumer_request_builds_router_call() {
    let (state, ix) = request_llm_response(&consumer_ctx(), "q1".to_string(), "2+2?".to_string(), 2, 60).unwrap();
    assert_eq!(state.request_id, "q1");
    assert!(!state.has_response);
    assert!(state.response.is_empty());
    assert_eq!(state.authority, [21; 32]);
    assert_eq!(ix.program_id, [24; 32]);
    assert_eq!(ix.accounts.len(), 5);
    assert_eq!(ix.accounts[4], acct(20, false, true));
    let msgs = vec![Message { role: "user".to_string(), content: "2+2?".to_string() }];
    let data = CoolRouterCPI::serialize_create_request("q1", "openai", "gpt-4", &msgs, 2, 60).unwrap();
    assert_eq!(ix.data, data);
}

#[test]
fn consumer_request_id_bound() {
    let ok = "a".repeat(60);
    assert!(request_llm_response(&consumer_ctx(), ok, "p".to_string(), 1, 1).is_ok());
    let long = "a".repeat(61);
    assert_eq!(request_llm_response(&consumer_ctx(), long, "p".to_string(), 1, 1).err(), Some(ErrorCode::RequestIdTooLong));
}

#[test]
fn consumer_stores_callback_payload() {
    let mut state = ConsumerState { request_id: "q1".to_string(), response: vec![], has_response: false, authority: [21; 32] };
    assert_eq!(llm_callback(&mut state, "q2".to_string(), b"x".to_vec()), Err(ErrorCode::RequestIdMismatch));
    assert!(!state.has_response);
    assert_eq!(llm_callback(&mut state, "q1".to_string(), vec![0; 2001]), Err(ErrorCode::ResponseTooLarge));
    assert!(!state.has_response);
    let me = GetResponse { authority: [21; 32] };
    assert_eq!(get_response(&state, &me), Err(ErrorCode::NoResponse));
    assert_eq!(llm_callback(&mut state, "q1".to_string(), b"four".to_vec()), Ok(()));
    assert_eq!(get_response(&state, &me), Ok(b"four".to_vec()));
    assert_eq!(get_response(&state, &GetResponse { authority: [22; 32] }), Err(ErrorCode::Unauthorized));
    assert_eq!(llm_callback(&mut state, "q1".to_string(), vec![1; 2000]), Ok(()));
    assert_eq!(state.response.len(), 2000);
}
