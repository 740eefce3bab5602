//! Derivation of the program-controlled authority address.
//!
//! The authority that signs delegated transfers is not a key pair: it is the
//! address derived from the fixed seed tag together with the handler's own
//! deployment identity. Derivation is a pure function of those two inputs, so
//! any party can recompute it, and the address is chosen off-curve so that no
//! private key for it exists.

use vstd::prelude::*;

use crate::address::Address;

verus! {

/// What `Pubkey::try_find_program_address` returns for a single seed and a
/// program identity: the derived off-curve address and its disambiguation
/// ("bump") byte, or nothing in the statistically improbable event that no
/// bump yields an off-curve address (or the seed is over-long). A pure
/// function of its two arguments.
pub uninterp spec fn pda_search(seed: Seq<u8>, identity: Seq<u8>) -> Option<(Seq<u8>, u8)>;

/// What `Pubkey::create_program_address` returns for a single seed, a
/// disambiguation byte and a program identity: the derived address, or
/// nothing when the seed is over-long or the hash lands on the curve. A pure
/// function of its three arguments.
pub uninterp spec fn pda_checked(seed: Seq<u8>, bump: u8, identity: Seq<u8>) -> Option<Seq<u8>>;

/// Relies on `solana_program::pubkey::Pubkey::try_find_program_address`: it
/// tries bump bytes from 255 downward and returns the first candidate that
/// `create_program_address` accepts, together with that bump, so the returned
/// pair re-derives to the returned address; it returns `None` instead of
/// panicking when no bump works.
#[verifier::external_body]
pub(crate) fn pda_try_find(seed: &Vec<u8>, identity: &Address) -> (r: Option<(Address, u8)>)
    requires
        identity.wf(),
    ensures
        r is Some <==> pda_search(seed@, identity@) is Some,
        r matches Some(p) ==> {
            &&& p.0@ == pda_search(seed@, identity@).unwrap().0
            &&& p.1 == pda_search(seed@, identity@).unwrap().1
            &&& p.0.wf()
            &&& pda_checked(seed@, p.1, identity@) == Some(p.0@)
        },
{
    let id = solana_program::pubkey::Pubkey::new_from_array(
        identity.bytes.as_slice().try_into().unwrap(),
    );
    solana_program::pubkey::Pubkey::try_find_program_address(&[seed.as_slice()], &id)
        .map(|(address, bump)| (Address { bytes: address.to_bytes().to_vec() }, bump))
}

/// Relies on `solana_program::pubkey::Pubkey::create_program_address`: it
/// hashes the seed, the bump byte and the program identity, returns the
/// resulting address when it is off-curve, and an error when the seed is
/// over-long or the hash is a curve point.
#[verifier::external_body]
pub(crate) fn pda_create(seed: &Vec<u8>, bump: u8, identity: &Address) -> (r: Option<Address>)
    requires
        identity.wf(),
    ensures
        r is Some <==> pda_checked(seed@, bump, identity@) is Some,
        r matches Some(a) ==> a@ == pda_checked(seed@, bump, identity@).unwrap() && a.wf(),
{
    let id = solana_program::pubkey::Pubkey::new_from_array(
        identity.bytes.as_slice().try_into().unwrap(),
    );
    solana_program::pubkey::Pubkey::create_program_address(&[seed.as_slice(), &[bump]], &id)
        .ok()
        .map(|address| Address { bytes: address.to_bytes().to_vec() })
}

/// The fixed seed tag from which the delegated authority is derived: the
/// bytes of the ASCII string `authority`.
pub open spec fn authority_seed() -> Seq<u8> {
    seq![97u8, 117u8, 116u8, 104u8, 111u8, 114u8, 105u8, 116u8, 121u8]
}

/// The fixed seed tag as a byte vector.
pub fn authority_seed_bytes() -> (r: Vec<u8>)
    ensures
        r@ == authority_seed(),
{
    let mut v: Vec<u8> = Vec::new();
    v.push(97);  // a
    v.push(117);  // u
    v.push(116);  // t
    v.push(104);  // h
    v.push(111);  // o
    v.push(114);  // r
    v.push(105);  // i
    v.push(116);  // t
    v.push(121);  // y
    proof {
        assert(v@ =~= authority_seed());
    }
    v
}

/// Derives the delegated authority address and its disambiguation byte for a
/// handler identity, from the fixed seed tag.
pub fn derive_authority(identity: &Address) -> (r: Option<(Address, u8)>)
    requires
        identity.wf(),
    ensures
        r is Some <==> pda_search(authority_seed(), identity@) is Some,
        r matches Some(p) ==> {
            &&& p.0@ == pda_search(authority_seed(), identity@).unwrap().0
            &&& p.1 == pda_search(authority_seed(), identity@).unwrap().1
            &&& p.0.wf()
            &&& pda_checked(authority_seed(), p.1, identity@) == Some(p.0@)
        },
{
    let seed = authority_seed_bytes();
    pda_try_find(&seed, identity)
}

/// Determinism of derivation: two derivations from the same seed and the same
/// handler identity yield the same address and disambiguation byte.
pub proof fn lemma_derivation_deterministic(
    seed: Seq<u8>,
    identity: Seq<u8>,
    r1: Option<(Seq<u8>, u8)>,
    r2: Option<(Seq<u8>, u8)>,
)
    requires
        r1 == pda_search(seed, identity),
        r2 == pda_search(seed, identity),
    ensures
        r1 == r2,
{
}

} // verus!
