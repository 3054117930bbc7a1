//! The callback that delivers a winning payload to its requester.
use vstd::prelude::*;
use vstd::utf8::encode_utf8;
use crate::digest::{ledger_hash, ledger_hash_of};
use crate::state::{AccountMeta, ErrorCode, Identity, Instruction, LLMRequest};
use crate::wire::{prefixed, push_prefixed, MAX_PREFIXED_LEN};

verus! {

/// The first eight bytes of `h`.
pub open spec fn tag_of(h: Seq<u8>) -> Seq<u8> {
    h.take(8)
}

/// The routing tag of the callback method: the first eight bytes of the
/// ledger hash of its qualified name.
pub open spec fn callback_tag() -> Seq<u8> {
    tag_of(ledger_hash_of(encode_utf8("global:llm_callback"@)))
}

/// The callback's data: the tag, then the request id and the payload, each
/// preceded by its length.
pub open spec fn callback_data(id: Seq<char>, payload: Seq<u8>) -> Seq<u8> {
    callback_tag() + prefixed(encode_utf8(id)) + prefixed(payload)
}

/// The declared callback accounts, none a signer, each with its recorded
/// writability.
pub open spec fn callback_metas(keys: Seq<Identity>, writable: Seq<bool>) -> Seq<AccountMeta> {
    Seq::new(
        keys.len(),
        |i: int| AccountMeta { pubkey: keys[i], is_signer: false, is_writable: writable[i] },
    )
}

/// True when the id or the payload is too long for a 32-bit length prefix.
pub open spec fn callback_too_long(id: Seq<char>, payload_len: nat) -> bool {
    encode_utf8(id).len() > MAX_PREFIXED_LEN || payload_len > MAX_PREFIXED_LEN
}

/// Builds the call that hands `response` to the requesting program, over
/// exactly the accounts it declared at creation.
pub fn build_callback(request: &LLMRequest, response: &Vec<u8>) -> (r: Result<
    Instruction,
    ErrorCode,
>)
    requires
        request.callback_accounts@.len() == request.callback_writable@.len(),
    ensures
        callback_too_long(request.id@, response@.len()) ==> r == Err::<Instruction, ErrorCode>(
            ErrorCode::FieldTooLong,
        ),
        !callback_too_long(request.id@, response@.len()) ==> r is Ok && r->Ok_0.program_id
            == request.caller_program && r->Ok_0.accounts@ == callback_metas(
            request.callback_accounts@,
            request.callback_writable@,
        ) && r->Ok_0.data@ == callback_data(request.id@, response@),
{
    let id_bytes = request.id.as_str().as_bytes();
    if id_bytes.len() > MAX_PREFIXED_LEN || response.len() > MAX_PREFIXED_LEN {
        return Err(ErrorCode::FieldTooLong);
    }
    let digest = ledger_hash("global:llm_callback".as_bytes());
    let mut data: Vec<u8> = Vec::new();
    let mut i: usize = 0;
    while i < 8
        invariant
            0 <= i <= 8,
            data@ == digest@.take(i as int),
        decreases 8 - i,
    {
        data.push(digest[i]);
        assert(data@ =~= digest@.take(i as int + 1));
        i = i + 1;
    }
    push_prefixed(&mut data, id_bytes);
    push_prefixed(&mut data, response.as_slice());
    assert(data@ =~= callback_data(request.id@, response@));
    let mut accounts: Vec<AccountMeta> = Vec::new();
    let mut k: usize = 0;
    while k < request.callback_accounts.len()
        invariant
            0 <= k <= request.callback_accounts@.len(),
            request.callback_accounts@.len() == request.callback_writable@.len(),
            accounts@ == callback_metas(request.callback_accounts@, request.callback_writable@).take(
                k as int,
            ),
        decreases request.callback_accounts@.len() - k,
    {
        accounts.push(
            AccountMeta {
                pubkey: request.callback_accounts[k],
                is_signer: false,
                is_writable: request.callback_writable[k],
            },
        );
        assert(accounts@ =~= callback_metas(
            request.callback_accounts@,
            request.callback_writable@,
        ).take(k as int + 1));
        k = k + 1;
    }
    assert(accounts@ =~= callback_metas(request.callback_accounts@, request.callback_writable@));
    Ok(Instruction { program_id: request.caller_program, accounts, data })
}

} // verus!
