//! A requester program: it stores one pending request, asks the router for
//! it, and keeps the payload the router delivers.
use vstd::prelude::*;
use vstd::utf8::encode_utf8;
use crate::cpi::{
    create_args_too_long, create_llm_request, create_request_data, create_request_metas,
    messages_view,
};
use crate::state::{AccountMeta, ErrorCode as RouterError, Identity, Instruction, Message};

verus! {

/// Longest request id, in bytes.
pub const MAX_REQUEST_ID_LEN: usize = 60;

/// Longest payload the requester keeps, in bytes.
pub const MAX_RESPONSE_LEN: usize = 2000;

#[derive(Clone, Copy, Debug, PartialEq, Eq, Structural)]
pub enum ErrorCode {
    RequestIdMismatch,
    NoResponse,
    RequestIdTooLong,
    ResponseTooLarge,
    Unauthorized,
    /// Building the router call failed.
    Router(RouterError),
}

/// The requester's record of its request.
#[derive(Clone, Debug)]
pub struct ConsumerState {
    pub request_id: String,
    pub response: Vec<u8>,
    pub has_response: bool,
    pub authority: Identity,
}

impl View for ConsumerState {
    /// The request id, the payload, whether one arrived, and the authority.
    type V = (Seq<char>, Seq<u8>, bool, Identity);

    open spec fn view(&self) -> (Seq<char>, Seq<u8>, bool, Identity) {
        (self.request_id@, self.response@, self.has_response, self.authority)
    }
}

/// The accounts of `request_llm_response`.
#[derive(Clone, Copy, Debug)]
pub struct RequestLLMResponse {
    pub consumer_state: AccountMeta,
    pub authority: AccountMeta,
    pub request_pda: AccountMeta,
    pub consumer_program: AccountMeta,
    pub coolrouter_program: Identity,
    pub system_program: AccountMeta,
}

/// What `get_response` reads from the accounts: the signer asking.
#[derive(Clone, Copy, Debug)]
pub struct GetResponse {
    pub authority: Identity,
}

/// The provider a requester asks.
pub open spec fn provider_name() -> Seq<char> {
    "openai"@
}

/// The model a requester asks for.
pub open spec fn model_name() -> Seq<char> {
    "gpt-4"@
}

/// The role of the prompt's message.
pub open spec fn user_role() -> Seq<char> {
    "user"@
}

/// Records a new request and builds the router call for it: one user
/// message holding the prompt, with the requester's state as the only
/// callback account.
pub fn request_llm_response(
    ctx: &RequestLLMResponse,
    request_id: String,
    prompt: String,
    min_votes: u8,
    approval_threshold: u8,
) -> (r: Result<(ConsumerState, Instruction), ErrorCode>)
    ensures
        encode_utf8(request_id@).len() > MAX_REQUEST_ID_LEN ==> r == Err::<
            (ConsumerState, Instruction),
            ErrorCode,
        >(ErrorCode::RequestIdTooLong),
        encode_utf8(request_id@).len() <= MAX_REQUEST_ID_LEN ==> {
            let messages = seq![(user_role(), prompt@)];
            if create_args_too_long(request_id@, provider_name(), model_name(), messages) {
                r == Err::<(ConsumerState, Instruction), ErrorCode>(
                    ErrorCode::Router(RouterError::FieldTooLong),
                )
            } else {
                r is Ok && {
                    let (state, ix) = r->Ok_0;
                    &&& state.request_id@ == request_id@
                    &&& state.response@ == Seq::<u8>::empty()
                    &&& !state.has_response
                    &&& state.authority == ctx.authority.pubkey
                    &&& ix.program_id == ctx.coolrouter_program
                    &&& ix.accounts@ == create_request_metas(
                        seq![
                            ctx.request_pda,
                            ctx.authority,
                            ctx.consumer_program,
                            ctx.system_program,
                        ],
                        seq![ctx.consumer_state],
                    )
                    &&& ix.data@ == create_request_data(
                        request_id@,
                        provider_name(),
                        model_name(),
                        messages,
                        min_votes,
                        approval_threshold,
                    )
                }
            }
        },
{
    if request_id.as_str().as_bytes().len() > MAX_REQUEST_ID_LEN {
        return Err(ErrorCode::RequestIdTooLong);
    }
    let state = ConsumerState {
        request_id: request_id.clone(),
        response: Vec::new(),
        has_response: false,
        authority: ctx.authority.pubkey,
    };
    let messages = vec![Message { role: "user".to_owned(), content: prompt }];
    assert(messages_view(messages@) =~= seq![(user_role(), prompt@)]);
    let callback_accounts = vec![ctx.consumer_state];
    assert(callback_accounts@ =~= seq![ctx.consumer_state]);
    match create_llm_request(
        ctx.request_pda,
        ctx.authority,
        ctx.consumer_program,
        ctx.system_program,
        ctx.coolrouter_program,
        callback_accounts,
        request_id,
        "openai".to_owned(),
        "gpt-4".to_owned(),
        messages,
        min_votes,
        approval_threshold,
    ) {
        Ok(ix) => Ok((state, ix)),
        Err(e) => Err(ErrorCode::Router(e)),
    }
}

/// Stores the payload the router delivers for this requester's request.
pub fn llm_callback(state: &mut ConsumerState, request_id: String, response: Vec<u8>) -> (r: Result<
    (),
    ErrorCode,
>)
    ensures
        old(state).request_id@ != request_id@ ==> r == Err::<(), ErrorCode>(
            ErrorCode::RequestIdMismatch,
        ),
        old(state).request_id@ == request_id@ && response@.len() > MAX_RESPONSE_LEN ==> r
            == Err::<(), ErrorCode>(ErrorCode::ResponseTooLarge),
        r is Err ==> final(state)@ == old(state)@,
        old(state).request_id@ == request_id@ && response@.len() <= MAX_RESPONSE_LEN ==> r is Ok
            && final(state)@ == (old(state).request_id@, response@, true, old(state).authority),
{
    if state.request_id != request_id {
        return Err(ErrorCode::RequestIdMismatch);
    }
    if response.len() > MAX_RESPONSE_LEN {
        return Err(ErrorCode::ResponseTooLarge);
    }
    state.response = response;
    state.has_response = true;
    Ok(())
}

/// The stored payload, for the authority that made the request.
pub fn get_response(state: &ConsumerState, ctx: &GetResponse) -> (r: Result<Vec<u8>, ErrorCode>)
    ensures
        state.authority != ctx.authority ==> r == Err::<Vec<u8>, ErrorCode>(
            ErrorCode::Unauthorized,
        ),
        state.authority == ctx.authority && !state.has_response ==> r == Err::<Vec<u8>, ErrorCode>(
            ErrorCode::NoResponse,
        ),
        state.authority == ctx.authority && state.has_response ==> r is Ok && r->Ok_0@
            == state.response@,
{
    if !crate::state::eq32(&state.authority, &ctx.authority) {
        return Err(ErrorCode::Unauthorized);
    }
    if !state.has_response {
        return Err(ErrorCode::NoResponse);
    }
    Ok(state.response.clone())
}

} // verus!
