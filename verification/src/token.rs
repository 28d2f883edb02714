//! Token accounts: what the token program keeps for a holder, and how much
//! of it the pipeline reads.

use crate::address::Address;
use crate::reader::{field, le_value};
use spl_token::solana_program::program_pack::Pack;
use vstd::prelude::*;

verus! {

/// Bytes in the data of a token account.
pub const TOKEN_ACCOUNT_LEN: usize = 165;

/// The bytes of the token program's address.
pub open spec fn token_program_bytes() -> Seq<u8> {
    seq![
        6u8, 221u8, 246u8, 225u8, 215u8, 101u8, 161u8, 147u8, 217u8, 203u8, 225u8, 70u8, 206u8,
        235u8, 121u8, 172u8, 28u8, 180u8, 133u8, 237u8, 95u8, 91u8, 55u8, 145u8, 58u8, 140u8,
        245u8, 133u8, 126u8, 255u8, 0u8, 169u8,
    ]
}

/// The address of the token program, the owner of every token account.
pub fn token_program_id() -> (id: Address)
    ensures
        id@ == token_program_bytes(),
{
    let id = Address::new(
        [
            6, 221, 246, 225, 215, 101, 161, 147, 217, 203, 225, 70, 206, 235, 121, 172, 28, 180,
            133, 237, 95, 91, 55, 145, 58, 140, 245, 133, 126, 255, 0, 169,
        ],
    );
    assert(id@ =~= token_program_bytes());
    id
}

/// What the pipeline reads of a token account.
#[derive(Clone, Copy, Debug)]
pub struct TokenAccount {
    /// The token's mint.
    pub mint: Address,
    /// The holder.
    pub owner: Address,
    /// The amount held.
    pub amount: u64,
}

/// Whether the four bytes at `at` mark an optional field as absent or as
/// present.
pub open spec fn option_tag(data: Seq<u8>, at: int) -> bool {
    &&& data[at] == 0 || data[at] == 1
    &&& data[at + 1] == 0
    &&& data[at + 2] == 0
    &&& data[at + 3] == 0
}

/// Whether `data` is the data of an initialised token account: 165 bytes,
/// the state byte initialised or frozen, and the marks of the delegate, of
/// the native reserve and of the close authority each well formed.
pub open spec fn is_token_account(data: Seq<u8>) -> bool {
    &&& data.len() == 165
    &&& option_tag(data, 72)
    &&& data[108] == 1 || data[108] == 2
    &&& option_tag(data, 109)
    &&& option_tag(data, 129)
}

/// Whether `account` holds the mint, the owner and the amount of `data`.
pub open spec fn unpacked(data: Seq<u8>, account: TokenAccount) -> bool {
    &&& account.mint@ == field(data, 0, 32)
    &&& account.owner@ == field(data, 32, 32)
    &&& account.amount == le_value(field(data, 64, 8))
}

#[verifier::external_type_specification]
#[verifier::external_body]
pub struct ExProgramError(spl_token::solana_program::program_error::ProgramError);

/// `spl_token::state::Account::unpack`. Trusted: the call succeeds exactly
/// on the data of an initialised token account, and the mint, the owner and
/// the amount it yields are those that lie in the first 72 bytes.
#[allow(deprecated)]
#[verifier::external_body]
fn unpack(data: &[u8]) -> (r: Result<
    TokenAccount,
    spl_token::solana_program::program_error::ProgramError,
>)
    ensures
        r is Ok <==> is_token_account(data@),
        r matches Ok(account) ==> unpacked(data@, account),
{
    spl_token::state::Account::unpack(data).map(
        |a| TokenAccount {
            mint: Address { bytes: a.mint.to_bytes() },
            owner: Address { bytes: a.owner.to_bytes() },
            amount: a.amount,
        },
    )
}

/// Reads the data of a token account; `None` where it is none.
pub fn unpack_token_account(data: &[u8]) -> (r: Option<TokenAccount>)
    ensures
        r is Some <==> is_token_account(data@),
        r matches Some(account) ==> unpacked(data@, account),
{
    match unpack(data) {
        Ok(account) => Some(account),
        Err(_) => None,
    }
}

} // verus!
