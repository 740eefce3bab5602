//! Decoding of the token-accounting service's account records.
//!
//! The service stores a token-class descriptor in 82 bytes and a holding
//! record in 165 bytes, both in a fixed little-endian layout. The handler
//! only needs the class's precision and the validity of the source holding;
//! decoding itself is the service's own code, called through trusted
//! wrappers whose contracts restate the layout.

use vstd::prelude::*;

use crate::address::Address;
use solana_program::program_pack::Pack;

verus! {

/// The fields of a holding record that this library reads: which token class
/// it tracks, which authority has custody of it, its balance, and whether it
/// is frozen.
pub ghost struct HoldingView {
    pub token_class: Seq<u8>,
    pub authority: Seq<u8>,
    pub amount: u64,
    pub frozen: bool,
}

/// A decoded holding record.
pub struct Holding {
    /// The token class whose units this holding tracks.
    pub token_class: Address,
    /// The authority with custody of this holding.
    pub authority: Address,
    /// The balance, in base units of the token class.
    pub amount: u64,
    /// A frozen holding can neither send nor receive.
    pub frozen: bool,
}

impl Holding {
    pub open spec fn view(&self) -> HoldingView {
        HoldingView {
            token_class: self.token_class@,
            authority: self.authority@,
            amount: self.amount,
            frozen: self.frozen,
        }
    }

    pub open spec fn wf(&self) -> bool {
        self.token_class.wf() && self.authority.wf()
    }
}

impl Clone for Holding {
    /// A cloned holding records the same fields.
    fn clone(&self) -> (r: Self)
        ensures
            r@ == self@,
            self.wf() ==> r.wf(),
    {
        Holding {
            token_class: self.token_class.clone(),
            authority: self.authority.clone(),
            amount: self.amount,
            frozen: self.frozen,
        }
    }
}

/// An optional-field tag in the service's layout: four bytes that are either
/// `[0, 0, 0, 0]` (absent) or `[1, 0, 0, 0]` (present).
pub open spec fn option_tag_ok(data: Seq<u8>, at: int) -> bool {
    &&& (data[at] == 0 || data[at] == 1)
    &&& data[at + 1] == 0
    &&& data[at + 2] == 0
    &&& data[at + 3] == 0
}

/// An unsigned 64-bit integer read from eight little-endian bytes.
pub open spec fn le_u64(s: Seq<u8>) -> u64
    recommends
        s.len() == 8,
{
    (s[0] as int + s[1] as int * 0x100 + s[2] as int * 0x1_0000 + s[3] as int * 0x100_0000
        + s[4] as int * 0x1_0000_0000 + s[5] as int * 0x100_0000_0000 + s[6] as int
        * 0x1_0000_0000_0000 + s[7] as int * 0x100_0000_0000_0000) as u64
}

/// What decoding a token-class descriptor yields: its precision (the number
/// of base-10 digits to the right of the decimal place), or nothing when the
/// record is not 82 bytes, has a malformed optional-authority tag, or is not
/// marked initialized.
///
/// Layout: mint authority tag and body at 0..36, supply at 36..44, precision
/// at 44, initialization flag at 45, freeze authority tag and body at 46..82.
pub open spec fn decode_token_class(data: Seq<u8>) -> Option<u8> {
    if data.len() == 82 && option_tag_ok(data, 0) && data[45] == 1 && option_tag_ok(data, 46) {
        Some(data[44])
    } else {
        None
    }
}

/// What decoding a holding record yields, or nothing when the record is not
/// 165 bytes, has a malformed optional-field tag, or is not initialized.
///
/// Layout: token class at 0..32, custodial authority at 32..64, balance at
/// 64..72 little-endian, delegate tag at 72..76 with its key at 76..108,
/// state byte at 108 (0 uninitialized, 1 initialized, 2 frozen), native tag
/// at 109..113 with its value at 113..121, delegated amount at 121..129,
/// close-authority tag at 129..133 with its key at 133..165.
pub open spec fn decode_holding(data: Seq<u8>) -> Option<HoldingView> {
    if data.len() == 165 && option_tag_ok(data, 72) && (data[108] == 1 || data[108] == 2)
        && option_tag_ok(data, 109) && option_tag_ok(data, 129) {
        Some(
            HoldingView {
                token_class: data.subrange(0, 32),
                authority: data.subrange(32, 64),
                amount: le_u64(data.subrange(64, 72)),
                frozen: data[108] == 2,
            },
        )
    } else {
        None
    }
}

/// Relies on `spl_token::state::Mint::unpack`: it accepts exactly 82 bytes in
/// the layout above, requires the two optional-authority tags to be valid and
/// the record to be marked initialized, and returns the decoded record, whose
/// `decimals` field is the byte at offset 44.
#[verifier::external_body]
pub(crate) fn unpack_token_class(data: &Vec<u8>) -> (r: Option<u8>)
    ensures
        r == decode_token_class(data@),
{
    match spl_token::state::Mint::unpack(data.as_slice()) {
        Ok(m) => Some(m.decimals),
        Err(_) => None,
    }
}

/// Relies on `spl_token::state::Account::unpack`: it accepts exactly 165
/// bytes in the layout above, requires the three optional-field tags and the
/// state byte to be valid and the record to be initialized, and returns the
/// decoded record with the mint, owner, little-endian amount and state read
/// from their fixed offsets.
#[verifier::external_body]
pub(crate) fn unpack_holding(data: &Vec<u8>) -> (r: Option<Holding>)
    ensures
        r is Some <==> decode_holding(data@) is Some,
        r matches Some(h) ==> h@ == decode_holding(data@).unwrap() && h.wf(),
{
    match spl_token::state::Account::unpack(data.as_slice()) {
        Ok(a) => Some(
            Holding {
                token_class: Address { bytes: a.mint.to_bytes().to_vec() },
                authority: Address { bytes: a.owner.to_bytes().to_vec() },
                amount: a.amount,
                frozen: match a.state {
                    spl_token::state::AccountState::Frozen => true,
                    spl_token::state::AccountState::Initialized => false,
                    spl_token::state::AccountState::Uninitialized => false,
                },
            },
        ),
        Err(_) => None,
    }
}

} // verus!
