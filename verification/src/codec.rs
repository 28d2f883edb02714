//! The record codec: listing accounts as they lie on the ledger, read into
//! typed records.

use crate::address::Address;
use crate::reader::{field, le_value, read_u128, read_u32, read_u64};
use vstd::prelude::*;
use vstd::utf8::{decode_utf8, valid_utf8};

verus! {

/// Bytes of the type discriminator in front of every payload.
pub const DISCRIMINATOR_LEN: usize = 8;

/// Bytes of a listing behind its name: everything of fixed width.
pub const FIXED_LEN: usize = 115;

/// A listing as its account holds it. The price is kept as the sixty-four
/// bits of its binary floating-point form.
#[derive(Debug)]
pub struct AnchorListing {
    pub name: String,
    pub seed: u64,
    pub mint: Address,
    pub funding_goal: u64,
    pub pool_mint_supply: u128,
    pub funding_raised: u64,
    pub available_tokens: u128,
    pub base_price: u64,
    pub tokens_sold: u128,
    pub bump: u8,
    pub vault_bump: u8,
    pub mint_bump: u8,
}

/// Why a payload is not a listing.
#[derive(Clone, Copy, Debug, PartialEq, Eq)]
pub enum DecodeError {
    /// Fewer than eight bytes: there is no discriminator to skip.
    MissingDiscriminator,
    /// The payload ends inside a field.
    UnexpectedEnd,
    /// Bytes are left behind the last field.
    TrailingBytes,
    /// The name is not UTF-8.
    InvalidName,
    /// The price is not a number.
    PriceNotANumber,
}

/// The length that the payload announces for the name.
pub open spec fn name_len(payload: Seq<u8>) -> nat {
    le_value(field(payload, 8, 4))
}

/// The bytes of the name.
pub open spec fn name_bytes(payload: Seq<u8>) -> Seq<u8> {
    field(payload, 12, name_len(payload) as int)
}

/// Where the fields of fixed width begin.
pub open spec fn fixed_at(payload: Seq<u8>) -> int {
    12 + name_len(payload) as int
}

/// The bits of the price.
pub open spec fn price_bits(payload: Seq<u8>) -> nat {
    le_value(field(payload, fixed_at(payload) + 88, 8))
}

/// Whether sixty-four bits of a binary floating-point number stand for no
/// number: all exponent bits set and a fraction that is not zero.
pub open spec fn not_a_number(bits: nat) -> bool {
    bits % 0x8000_0000_0000_0000 > 0x7ff0_0000_0000_0000
}

/// Why `payload` is refused, if it is. The checks come in this order.
pub open spec fn decode_error(payload: Seq<u8>) -> Option<DecodeError> {
    if payload.len() < 8 {
        Some(DecodeError::MissingDiscriminator)
    } else if payload.len() < 12 || payload.len() < fixed_at(payload) + 115 {
        Some(DecodeError::UnexpectedEnd)
    } else if payload.len() > fixed_at(payload) + 115 {
        Some(DecodeError::TrailingBytes)
    } else if !valid_utf8(name_bytes(payload)) {
        Some(DecodeError::InvalidName)
    } else if not_a_number(price_bits(payload)) {
        Some(DecodeError::PriceNotANumber)
    } else {
        None
    }
}

/// Whether `listing` holds the fields of `payload`, each read at its place:
/// the name behind its length, then the integers, the mint and the price in
/// the order of the record, all little-endian.
pub open spec fn decoded(payload: Seq<u8>, listing: AnchorListing) -> bool {
    let at = fixed_at(payload);
    &&& listing.name@ == decode_utf8(name_bytes(payload))
    &&& listing.seed == le_value(field(payload, at, 8))
    &&& listing.mint@ == field(payload, at + 8, 32)
    &&& listing.funding_goal == le_value(field(payload, at + 40, 8))
    &&& listing.pool_mint_supply == le_value(field(payload, at + 48, 16))
    &&& listing.funding_raised == le_value(field(payload, at + 64, 8))
    &&& listing.available_tokens == le_value(field(payload, at + 72, 16))
    &&& listing.base_price == price_bits(payload)
    &&& listing.tokens_sold == le_value(field(payload, at + 96, 16))
    &&& listing.bump == payload[at + 112]
    &&& listing.vault_bump == payload[at + 113]
    &&& listing.mint_bump == payload[at + 114]
}

#[verifier::external_type_specification]
#[verifier::external_body]
pub struct ExFromUtf8Error(std::string::FromUtf8Error);

/// `String::from_utf8`. Trusted: it succeeds exactly on valid UTF-8 and then
/// yields the text that the bytes encode.
#[verifier::external_body]
fn text_from_utf8(bytes: Vec<u8>) -> (r: Result<String, std::string::FromUtf8Error>)
    ensures
        r is Ok <==> valid_utf8(bytes@),
        r matches Ok(text) ==> text@ == decode_utf8(bytes@),
{
    String::from_utf8(bytes)
}

/// Whether the bits of a price stand for no number.
pub fn is_not_a_number(bits: u64) -> (r: bool)
    ensures
        r == not_a_number(bits as nat),
{
    bits % 0x8000_0000_0000_0000 > 0x7ff0_0000_0000_0000
}

/// Reads a listing from the payload of its account. The first eight bytes
/// are the discriminator and are skipped; the rest must hold exactly the
/// fields of a listing.
pub fn decode_listing(payload: &[u8]) -> (r: Result<AnchorListing, DecodeError>)
    ensures
        match r {
            Ok(listing) => decode_error(payload@) is None && decoded(payload@, listing),
            Err(e) => decode_error(payload@) == Some(e),
        },
{
    let len = payload.len();
    if len < DISCRIMINATOR_LEN {
        return Err(DecodeError::MissingDiscriminator);
    }
    if len < 12 {
        return Err(DecodeError::UnexpectedEnd);
    }
    let announced: u32 = read_u32(payload, 8);
    let needed: u64 = 12 + announced as u64 + FIXED_LEN as u64;
    if (len as u64) < needed {
        return Err(DecodeError::UnexpectedEnd);
    }
    if (len as u64) > needed {
        return Err(DecodeError::TrailingBytes);
    }
    let at: usize = 12 + announced as usize;
    let mut raw_name: Vec<u8> = Vec::new();
    let mut i: usize = 12;
    while i < at
        invariant
            12 <= i <= at,
            at <= payload@.len(),
            raw_name@ == payload@.subrange(12, i as int),
        decreases at - i,
    {
        raw_name.push(payload[i]);
        assert(payload@.subrange(12, i + 1) =~= payload@.subrange(12, i as int).push(
            payload@[i as int],
        ));
        i += 1;
    }
    let name = match text_from_utf8(raw_name) {
        Ok(name) => name,
        Err(_) => {
            return Err(DecodeError::InvalidName);
        },
    };
    let base_price = read_u64(payload, at + 88);
    if is_not_a_number(base_price) {
        return Err(DecodeError::PriceNotANumber);
    }
    Ok(
        AnchorListing {
            name,
            seed: read_u64(payload, at),
            mint: Address::read(payload, at + 8),
            funding_goal: read_u64(payload, at + 40),
            pool_mint_supply: read_u128(payload, at + 48),
            funding_raised: read_u64(payload, at + 64),
            available_tokens: read_u128(payload, at + 72),
            base_price,
            tokens_sold: read_u128(payload, at + 96),
            bump: payload[at + 112],
            vault_bump: payload[at + 113],
            mint_bump: payload[at + 114],
        },
    )
}

/// A payload too short to hold a discriminator, or cut off anywhere before
/// its end, is refused.
pub proof fn lemma_truncated_is_refused(payload: Seq<u8>, keep: int)
    requires
        decode_error(payload) is None,
        0 <= keep < payload.len(),
    ensures
        decode_error(payload.take(keep)) is Some,
{
    let cut = payload.take(keep);
    if keep >= 12 {
        assert(field(cut, 8, 4) =~= field(payload, 8, 4));
    }
}

} // verus!
