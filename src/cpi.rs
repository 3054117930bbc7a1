//! The requester's side: building the call that creates a request.
use vstd::prelude::*;
use vstd::utf8::encode_utf8;
use crate::digest::{sha256, sha256_of};
use crate::state::{AccountMeta, ErrorCode, Identity, Instruction, Message};
use crate::wire::{le_u32, prefixed, push_prefixed, push_u32_le, MAX_PREFIXED_LEN};

verus! {

/// A message as its role and content.
pub type MessageView = (Seq<char>, Seq<char>);

/// The messages as roles and contents.
pub open spec fn messages_view(ms: Seq<Message>) -> Seq<MessageView> {
    ms.map_values(|m: Message| (m.role@, m.content@))
}

/// A message as its role and content, each preceded by its length.
pub open spec fn message_bytes(m: MessageView) -> Seq<u8> {
    prefixed(encode_utf8(m.0)) + prefixed(encode_utf8(m.1))
}

/// The encoded messages, one after another.
pub open spec fn messages_body(ms: Seq<MessageView>) -> Seq<u8>
    decreases ms.len(),
{
    if ms.len() == 0 {
        Seq::empty()
    } else {
        messages_body(ms.drop_last()) + message_bytes(ms.last())
    }
}

/// True when some field of a message is too long for its length prefix.
pub open spec fn message_too_long(m: MessageView) -> bool {
    encode_utf8(m.0).len() > MAX_PREFIXED_LEN || encode_utf8(m.1).len() > MAX_PREFIXED_LEN
}

/// True when some argument of a creation is too long for its length prefix.
pub open spec fn create_args_too_long(
    request_id: Seq<char>,
    provider: Seq<char>,
    model_id: Seq<char>,
    messages: Seq<MessageView>,
) -> bool {
    ||| encode_utf8(request_id).len() > MAX_PREFIXED_LEN
    ||| encode_utf8(provider).len() > MAX_PREFIXED_LEN
    ||| encode_utf8(model_id).len() > MAX_PREFIXED_LEN
    ||| messages.len() > MAX_PREFIXED_LEN
    ||| exists|i: int| 0 <= i < messages.len() && message_too_long(#[trigger] messages[i])
}

/// The first eight bytes of the SHA-256 digest of a method's qualified name.
pub open spec fn discriminator_of(name: Seq<char>) -> Seq<u8> {
    sha256_of(encode_utf8(name)).take(8)
}

/// The data of a creation call: its routing tag, then each argument.
pub open spec fn create_request_data(
    request_id: Seq<char>,
    provider: Seq<char>,
    model_id: Seq<char>,
    messages: Seq<MessageView>,
    min_votes: u8,
    approval_threshold: u8,
) -> Seq<u8> {
    discriminator_of("global:create_request"@) + prefixed(encode_utf8(request_id)) + prefixed(
        encode_utf8(provider),
    ) + prefixed(encode_utf8(model_id)) + le_u32(messages.len()) + messages_body(messages) + seq![
        min_votes,
        approval_threshold,
    ]
}

/// The accounts of a creation call: the four fixed ones as given, then each
/// callback account, writable and not a signer.
pub open spec fn create_request_metas(
    fixed: Seq<AccountMeta>,
    callback_accounts: Seq<AccountMeta>,
) -> Seq<AccountMeta> {
    fixed + callback_accounts.map_values(
        |a: AccountMeta| AccountMeta { pubkey: a.pubkey, is_signer: false, is_writable: true },
    )
}

/// A builder for the call that creates a request on the router.
#[derive(Clone, Debug)]
pub struct CoolRouterCPI {
    pub request_pda: AccountMeta,
    pub authority: AccountMeta,
    pub caller_program: AccountMeta,
    pub system_program: AccountMeta,
    pub coolrouter_program: Identity,
    pub callback_accounts: Vec<AccountMeta>,
}

impl CoolRouterCPI {
    /// The four fixed accounts, in call order.
    pub open spec fn fixed_accounts(&self) -> Seq<AccountMeta> {
        seq![self.request_pda, self.authority, self.caller_program, self.system_program]
    }

    pub fn new(
        request_pda: AccountMeta,
        authority: AccountMeta,
        caller_program: AccountMeta,
        system_program: AccountMeta,
        coolrouter_program: Identity,
    ) -> (r: Self)
        ensures
            r.request_pda == request_pda,
            r.authority == authority,
            r.caller_program == caller_program,
            r.system_program == system_program,
            r.coolrouter_program == coolrouter_program,
            r.callback_accounts@ == Seq::<AccountMeta>::empty(),
    {
        CoolRouterCPI {
            request_pda,
            authority,
            caller_program,
            system_program,
            coolrouter_program,
            callback_accounts: Vec::new(),
        }
    }

    pub fn add_callback_account(self, account: AccountMeta) -> (r: Self)
        ensures
            r.fixed_accounts() == self.fixed_accounts(),
            r.coolrouter_program == self.coolrouter_program,
            r.callback_accounts@ == self.callback_accounts@.push(account),
    {
        let mut s = self;
        s.callback_accounts.push(account);
        s
    }

    pub fn add_callback_accounts(self, accounts: Vec<AccountMeta>) -> (r: Self)
        ensures
            r.fixed_accounts() == self.fixed_accounts(),
            r.coolrouter_program == self.coolrouter_program,
            r.callback_accounts@ == self.callback_accounts@ + accounts@,
    {
        let mut s = self;
        let mut more = accounts;
        s.callback_accounts.append(&mut more);
        s
    }

    /// Builds the creation call: the router program, the fixed accounts and
    /// the callback accounts, and the encoded arguments.
    pub fn create_request(
        self,
        request_id: String,
        provider: String,
        model_id: String,
        messages: Vec<Message>,
        min_votes: u8,
        approval_threshold: u8,
    ) -> (r: Result<Instruction, ErrorCode>)
        ensures
            create_args_too_long(request_id@, provider@, model_id@, messages_view(messages@)) ==> r == Err::<
                Instruction,
                ErrorCode,
            >(ErrorCode::FieldTooLong),
            !create_args_too_long(request_id@, provider@, model_id@, messages_view(messages@)) ==> r is Ok
                && r->Ok_0.program_id == self.coolrouter_program && r->Ok_0.accounts@
                == create_request_metas(self.fixed_accounts(), self.callback_accounts@)
                && r->Ok_0.data@ == create_request_data(
                request_id@,
                provider@,
                model_id@,
                messages_view(messages@),
                min_votes,
                approval_threshold,
            ),
    {
        let data = match Self::serialize_create_request(
            request_id.as_str(),
            provider.as_str(),
            model_id.as_str(),
            messages.as_slice(),
            min_votes,
            approval_threshold,
        ) {
            Ok(d) => d,
            Err(e) => {
                return Err(e);
            },
        };
        let mut accounts: Vec<AccountMeta> = vec![
            self.request_pda,
            self.authority,
            self.caller_program,
            self.system_program,
        ];
        assert(accounts@ =~= self.fixed_accounts());
        let ghost extra = self.callback_accounts@.map_values(
            |a: AccountMeta| AccountMeta { pubkey: a.pubkey, is_signer: false, is_writable: true },
        );
        let mut i: usize = 0;
        while i < self.callback_accounts.len()
            invariant
                0 <= i <= self.callback_accounts@.len(),
                extra == self.callback_accounts@.map_values(
                    |a: AccountMeta|
                        AccountMeta { pubkey: a.pubkey, is_signer: false, is_writable: true },
                ),
                accounts@ == self.fixed_accounts() + extra.take(i as int),
            decreases self.callback_accounts@.len() - i,
        {
            accounts.push(
                AccountMeta {
                    pubkey: self.callback_accounts[i].pubkey,
                    is_signer: false,
                    is_writable: true,
                },
            );
            assert(accounts@ =~= self.fixed_accounts() + extra.take(i as int + 1));
            i = i + 1;
        }
        assert(extra.take(i as int) =~= extra);
        Ok(Instruction { program_id: self.coolrouter_program, accounts, data })
    }

    /// Encodes the creation arguments after the method's routing tag.
    pub fn serialize_create_request(
        request_id: &str,
        provider: &str,
        model_id: &str,
        messages: &[Message],
        min_votes: u8,
        approval_threshold: u8,
    ) -> (r: Result<Vec<u8>, ErrorCode>)
        ensures
            create_args_too_long(request_id@, provider@, model_id@, messages_view(messages@)) ==> r == Err::<
                Vec<u8>,
                ErrorCode,
            >(ErrorCode::FieldTooLong),
            !create_args_too_long(request_id@, provider@, model_id@, messages_view(messages@)) ==> r is Ok
                && r->Ok_0@ == create_request_data(
                request_id@,
                provider@,
                model_id@,
                messages_view(messages@),
                min_votes,
                approval_threshold,
            ),
    {
        let id_bytes = request_id.as_bytes();
        let provider_bytes = provider.as_bytes();
        let model_bytes = model_id.as_bytes();
        if id_bytes.len() > MAX_PREFIXED_LEN || provider_bytes.len() > MAX_PREFIXED_LEN
            || model_bytes.len() > MAX_PREFIXED_LEN || messages.len() > MAX_PREFIXED_LEN {
            return Err(ErrorCode::FieldTooLong);
        }
        let mut data: Vec<u8> = Vec::new();
        let tag = Self::calculate_discriminator("global:create_request");
        let mut t: usize = 0;
        while t < 8
            invariant
                0 <= t <= 8,
                tag@.len() == 8,
                data@ == tag@.take(t as int),
            decreases 8 - t,
        {
            data.push(tag[t]);
            assert(data@ =~= tag@.take(t as int + 1));
            t = t + 1;
        }
        assert(tag@.take(8) =~= tag@);
        push_prefixed(&mut data, id_bytes);
        push_prefixed(&mut data, provider_bytes);
        push_prefixed(&mut data, model_bytes);
        push_u32_le(&mut data, messages.len());
        let ghost head = data@;
        let mut i: usize = 0;
        while i < messages.len()
            invariant
                0 <= i <= messages@.len(),
                data@ == head + messages_body(messages_view(messages@).take(i as int)),
                forall|k: int| 0 <= k < i ==> !message_too_long(#[trigger] messages_view(messages@)[k]),
            decreases messages@.len() - i,
        {
            let m = &messages[i];
            let role = m.role.as_str().as_bytes();
            let content = m.content.as_str().as_bytes();
            if role.len() > MAX_PREFIXED_LEN || content.len() > MAX_PREFIXED_LEN {
                assert(message_too_long(messages_view(messages@)[i as int]));
                return Err(ErrorCode::FieldTooLong);
            }
            push_prefixed(&mut data, role);
            push_prefixed(&mut data, content);
            let ghost mv = messages_view(messages@);
            assert(mv.take(i as int + 1).drop_last() =~= mv.take(i as int));
            assert(mv.take(i as int + 1).last() == (m.role@, m.content@));
            assert(data@ =~= head + messages_body(mv.take(i as int + 1)));
            i = i + 1;
        }
        assert(messages_view(messages@).take(i as int) =~= messages_view(messages@));
        data.push(min_votes);
        data.push(approval_threshold);
        assert(data@ =~= create_request_data(
            request_id@,
            provider@,
            model_id@,
            messages_view(messages@),
            min_votes,
            approval_threshold,
        ));
        Ok(data)
    }

    /// The first eight bytes of the SHA-256 digest of `namespace_and_name`.
    pub fn calculate_discriminator(namespace_and_name: &str) -> (r: [u8; 8])
        ensures
            r@ == discriminator_of(namespace_and_name@),
    {
        let digest = sha256(namespace_and_name.as_bytes());
        let r: [u8; 8] = [
            digest[0],
            digest[1],
            digest[2],
            digest[3],
            digest[4],
            digest[5],
            digest[6],
            digest[7],
        ];
        assert(r@ =~= digest@.take(8));
        r
    }
}

/// Builds the creation call for a requester in one step.
pub fn create_llm_request(
    request_pda: AccountMeta,
    authority: AccountMeta,
    caller_program: AccountMeta,
    system_program: AccountMeta,
    coolrouter_program: Identity,
    callback_accounts: Vec<AccountMeta>,
    request_id: String,
    provider: String,
    model_id: String,
    messages: Vec<Message>,
    min_votes: u8,
    approval_threshold: u8,
) -> (r: Result<Instruction, ErrorCode>)
    ensures
        create_args_too_long(request_id@, provider@, model_id@, messages_view(messages@)) ==> r == Err::<
            Instruction,
            ErrorCode,
        >(ErrorCode::FieldTooLong),
        !create_args_too_long(request_id@, provider@, model_id@, messages_view(messages@)) ==> r is Ok
            && r->Ok_0.program_id == coolrouter_program && r->Ok_0.accounts@
            == create_request_metas(
            seq![request_pda, authority, caller_program, system_program],
            callback_accounts@,
        ) && r->Ok_0.data@ == create_request_data(
            request_id@,
            provider@,
            model_id@,
            messages_view(messages@),
            min_votes,
            approval_threshold,
        ),
{
    CoolRouterCPI::new(request_pda, authority, caller_program, system_program, coolrouter_program)
        .add_callback_accounts(callback_accounts)
        .create_request(request_id, provider, model_id, messages, min_votes, approval_threshold)
}

} // verus!
