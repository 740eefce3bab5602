//! The delegated transfer handler's validation pipeline.
//!
//! Given its own identity and the caller's ordered account references, the
//! handler re-derives the delegated authority address, checks the claimed
//! authority against it, decodes the token-class descriptor and the source
//! holding, and builds the transfer request that carries the seed material as
//! its proof of authorization. Every failure leaves everything untouched.

use vstd::prelude::*;

use crate::address::Address;
use crate::error::TransferError;
use crate::ledger::{delegation_ok, spec_apply, spec_submit_decision, Ledger};
use crate::pda::{authority_seed, authority_seed_bytes, derive_authority, pda_search};
use crate::token_data::{decode_holding, decode_token_class, unpack_holding, unpack_token_class};

verus! {

/// The fixed number of base units every invocation moves.
pub const TRANSFER_AMOUNT: u64 = 10000;

/// Position of the source holding in the account reference set.
pub const SOURCE_POS: usize = 0;

/// Position of the token-class descriptor in the account reference set.
pub const TOKEN_CLASS_POS: usize = 1;

/// Position of the destination holding in the account reference set.
pub const DESTINATION_POS: usize = 2;

/// Position of the claimed-authority account in the account reference set.
pub const AUTHORITY_POS: usize = 3;

/// Position of the token-accounting service in the account reference set.
pub const TOKEN_SERVICE_POS: usize = 4;

/// One caller-supplied account reference: the account's address and a copy
/// of its data. Position in the reference set, not content, decides its role.
pub struct AccountRef {
    pub key: Address,
    pub data: Vec<u8>,
}

/// The fields of a transfer request, as the contracts speak of them.
pub ghost struct RequestView {
    pub source: Seq<u8>,
    pub token_class: Seq<u8>,
    pub destination: Seq<u8>,
    pub authority: Seq<u8>,
    pub token_service: Seq<u8>,
    pub amount: u64,
    pub decimals: u8,
    pub seed: Seq<u8>,
    pub bump: u8,
}

/// A validated transfer request bound for the external token-accounting
/// service. The seed and disambiguation byte are the delegation proof: the
/// service re-derives the authority address from them and accepts the
/// request only if it matches the named authority.
pub struct TransferRequest {
    pub source: Address,
    pub token_class: Address,
    pub destination: Address,
    pub authority: Address,
    pub token_service: Address,
    pub amount: u64,
    pub decimals: u8,
    pub seed: Vec<u8>,
    pub bump: u8,
}

impl TransferRequest {
    pub open spec fn view(&self) -> RequestView {
        RequestView {
            source: self.source@,
            token_class: self.token_class@,
            destination: self.destination@,
            authority: self.authority@,
            token_service: self.token_service@,
            amount: self.amount,
            decimals: self.decimals,
            seed: self.seed@,
            bump: self.bump,
        }
    }
}

/// Whether a claimed authority address is exactly the address derived from
/// the fixed seed and the handler identity.
pub open spec fn authority_matches(identity: Seq<u8>, claimed: Seq<u8>) -> bool {
    &&& pda_search(authority_seed(), identity) is Some
    &&& claimed == pda_search(authority_seed(), identity).unwrap().0
}

/// The request a successful preparation builds: the five addresses in their
/// fixed roles, the fixed amount, the decoded precision, and the derivation
/// proof for the handler identity.
pub open spec fn spec_request(identity: Seq<u8>, accounts: Seq<AccountRef>) -> RequestView {
    RequestView {
        source: accounts[SOURCE_POS as int].key@,
        token_class: accounts[TOKEN_CLASS_POS as int].key@,
        destination: accounts[DESTINATION_POS as int].key@,
        authority: accounts[AUTHORITY_POS as int].key@,
        token_service: accounts[TOKEN_SERVICE_POS as int].key@,
        amount: TRANSFER_AMOUNT,
        decimals: decode_token_class(accounts[TOKEN_CLASS_POS as int].data@).unwrap(),
        seed: authority_seed(),
        bump: pda_search(authority_seed(), identity).unwrap().1,
    }
}

/// The whole validation pipeline as one function: what preparing a transfer
/// returns for every identity and account reference set.
pub open spec fn spec_prepare(identity: Seq<u8>, accounts: Seq<AccountRef>) -> Result<
    RequestView,
    TransferError,
> {
    if accounts.len() < 5 {
        Err(TransferError::MissingAccount)
    } else if !authority_matches(identity, accounts[AUTHORITY_POS as int].key@) {
        Err(TransferError::InvalidAuthority)
    } else if decode_token_class(accounts[TOKEN_CLASS_POS as int].data@) is None {
        Err(TransferError::MalformedTokenClass)
    } else if decode_holding(accounts[SOURCE_POS as int].data@) is None {
        Err(TransferError::MalformedAccount)
    } else {
        Ok(spec_request(identity, accounts))
    }
}

/// Validates the account reference set against the handler identity and
/// builds the transfer request, or reports the first failure of the
/// pipeline: missing references, a claimed authority that is not the derived
/// address, an undecodable token-class descriptor, an undecodable source
/// holding.
pub fn prepare_transfer(identity: &Address, accounts: &Vec<AccountRef>) -> (r: Result<
    TransferRequest,
    TransferError,
>)
    requires
        identity.wf(),
    ensures
        r is Ok <==> spec_prepare(identity@, accounts@) is Ok,
        r matches Ok(req) ==> Ok::<RequestView, TransferError>(req@) == spec_prepare(
            identity@,
            accounts@,
        ),
        r matches Err(e) ==> Err::<RequestView, TransferError>(e) == spec_prepare(
            identity@,
            accounts@,
        ),
        r matches Ok(req) ==> delegation_ok(identity@, req@),
{
    if accounts.len() < 5 {
        return Err(TransferError::MissingAccount);
    }
    let (expected, bump) = match derive_authority(identity) {
        Some(p) => p,
        None => {
            return Err(TransferError::InvalidAuthority);
        },
    };
    if !expected.same_as(&accounts[AUTHORITY_POS].key) {
        return Err(TransferError::InvalidAuthority);
    }
    let decimals = match unpack_token_class(&accounts[TOKEN_CLASS_POS].data) {
        Some(d) => d,
        None => {
            return Err(TransferError::MalformedTokenClass);
        },
    };
    if unpack_holding(&accounts[SOURCE_POS].data).is_none() {
        return Err(TransferError::MalformedAccount);
    }
    Ok(
        TransferRequest {
            source: accounts[SOURCE_POS].key.clone(),
            token_class: accounts[TOKEN_CLASS_POS].key.clone(),
            destination: accounts[DESTINATION_POS].key.clone(),
            authority: accounts[AUTHORITY_POS].key.clone(),
            token_service: accounts[TOKEN_SERVICE_POS].key.clone(),
            amount: TRANSFER_AMOUNT,
            decimals,
            seed: authority_seed_bytes(),
            bump,
        },
    )
}


/// Runs one whole invocation against the token-accounting service: validates
/// the account reference set, and submits the prepared request. Either the
/// fixed amount moves from source to destination, or the invocation fails
/// with the pipeline's error and no balance anywhere changes.
pub fn process_delegated_transfer(
    identity: &Address,
    accounts: &Vec<AccountRef>,
    service: &mut Ledger,
) -> (r: Result<(), TransferError>)
    requires
        identity.wf(),
    ensures
        r is Err ==> final(service)@ == old(service)@,
        spec_prepare(identity@, accounts@) matches Err(e) ==> r == Err::<(), TransferError>(e),
        spec_prepare(identity@, accounts@) matches Ok(req) ==> {
            &&& r == spec_submit_decision(old(service)@, identity@, req)
            &&& (r is Ok ==> final(service)@ == spec_apply(old(service)@, req))
        },
        spec_prepare(identity@, accounts@) is Ok ==> r != Err::<(), TransferError>(
            TransferError::DelegationRejected,
        ),
{
    let req = match prepare_transfer(identity, accounts) {
        Ok(q) => q,
        Err(e) => {
            return Err(e);
        },
    };
    service.submit_transfer(identity, &req)
}

/// Authorization soundness: with five references supplied, whenever the
/// claimed authority is not the derived authority address, preparation fails
/// with `InvalidAuthority`.
pub proof fn lemma_authorization_soundness(identity: Seq<u8>, accounts: Seq<AccountRef>)
    requires
        accounts.len() >= 5,
        !authority_matches(identity, accounts[AUTHORITY_POS as int].key@),
    ensures
        spec_prepare(identity, accounts) == Err::<RequestView, TransferError>(
            TransferError::InvalidAuthority,
        ),
{
}

/// Any success has the canonical shape: a prepared request always names the
/// derived authority address, carries the fixed seed with the bump found for
/// this identity, and both service-owned records decoded.
pub proof fn lemma_success_shape(identity: Seq<u8>, accounts: Seq<AccountRef>)
    requires
        spec_prepare(identity, accounts) is Ok,
    ensures
        accounts.len() >= 5,
        authority_matches(identity, accounts[AUTHORITY_POS as int].key@),
        decode_token_class(accounts[TOKEN_CLASS_POS as int].data@) is Some,
        decode_holding(accounts[SOURCE_POS as int].data@) is Some,
        spec_prepare(identity, accounts).unwrap().authority == accounts[AUTHORITY_POS as int].key@,
        spec_prepare(identity, accounts).unwrap().seed == authority_seed(),
        spec_prepare(identity, accounts).unwrap().bump == pda_search(
            authority_seed(),
            identity,
        ).unwrap().1,
        spec_prepare(identity, accounts).unwrap().amount == TRANSFER_AMOUNT,
{
}

/// Order sensitivity, destination and authority swapped: unless the
/// destination address happens to be the derived authority address itself,
/// the swapped reference set is rejected as `InvalidAuthority`.
pub proof fn lemma_swap_destination_authority(identity: Seq<u8>, accounts: Seq<AccountRef>)
    requires
        accounts.len() >= 5,
        !authority_matches(identity, accounts[DESTINATION_POS as int].key@),
    ensures
        spec_prepare(
            identity,
            accounts.update(DESTINATION_POS as int, accounts[AUTHORITY_POS as int]).update(
                AUTHORITY_POS as int,
                accounts[DESTINATION_POS as int],
            ),
        ) == Err::<RequestView, TransferError>(TransferError::InvalidAuthority),
{
}

} // verus!
