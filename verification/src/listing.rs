//! The canonical listing row, the parameters under which it is stored, and
//! the wire message that carries it to subscribers.

use crate::address::{base58_text, Address};
use crate::codec::AnchorListing;
use crate::decimal::{
    decimal_digits, decimal_text, decimal_value, is_decimal, lemma_decimal_round_trip,
};
use vstd::prelude::*;

verus! {

/// A listing as the store and the wire know it: the record of the account
/// with its mint in base 58.
#[derive(Debug)]
pub struct Listing {
    pub name: String,
    pub seed: u64,
    pub mint: String,
    pub funding_goal: u64,
    pub pool_mint_supply: u128,
    pub funding_raised: u64,
    pub available_tokens: u128,
    pub base_price: u64,
    pub tokens_sold: u128,
    pub bump: u8,
    pub vault_bump: u8,
    pub mint_bump: u8,
}

/// What a listing holds, texts as sequences of characters.
pub struct ListingView {
    pub name: Seq<char>,
    pub seed: u64,
    pub mint: Seq<char>,
    pub funding_goal: u64,
    pub pool_mint_supply: u128,
    pub funding_raised: u64,
    pub available_tokens: u128,
    pub base_price: u64,
    pub tokens_sold: u128,
    pub bump: u8,
    pub vault_bump: u8,
    pub mint_bump: u8,
}

impl View for Listing {
    type V = ListingView;

    open spec fn view(&self) -> ListingView {
        ListingView {
            name: self.name@,
            seed: self.seed,
            mint: self.mint@,
            funding_goal: self.funding_goal,
            pool_mint_supply: self.pool_mint_supply,
            funding_raised: self.funding_raised,
            available_tokens: self.available_tokens,
            base_price: self.base_price,
            tokens_sold: self.tokens_sold,
            bump: self.bump,
            vault_bump: self.vault_bump,
            mint_bump: self.mint_bump,
        }
    }
}

/// The row that a decoded record becomes.
pub open spec fn spec_from_anchor(anchor: AnchorListing) -> ListingView {
    ListingView {
        name: anchor.name@,
        seed: anchor.seed,
        mint: base58_text(anchor.mint@),
        funding_goal: anchor.funding_goal,
        pool_mint_supply: anchor.pool_mint_supply,
        funding_raised: anchor.funding_raised,
        available_tokens: anchor.available_tokens,
        base_price: anchor.base_price,
        tokens_sold: anchor.tokens_sold,
        bump: anchor.bump,
        vault_bump: anchor.vault_bump,
        mint_bump: anchor.mint_bump,
    }
}

impl Listing {
    /// The canonical row of a decoded record: every field as it is, the mint
    /// in base 58.
    pub fn from_anchor(anchor: AnchorListing) -> (listing: Listing)
        ensures
            listing@ == spec_from_anchor(anchor),
    {
        let mint = anchor.mint.to_text();
        Listing {
            name: anchor.name,
            seed: anchor.seed,
            mint,
            funding_goal: anchor.funding_goal,
            pool_mint_supply: anchor.pool_mint_supply,
            funding_raised: anchor.funding_raised,
            available_tokens: anchor.available_tokens,
            base_price: anchor.base_price,
            tokens_sold: anchor.tokens_sold,
            bump: anchor.bump,
            vault_bump: anchor.vault_bump,
            mint_bump: anchor.mint_bump,
        }
    }

    /// A second copy of the row.
    pub fn duplicate(&self) -> (copy: Listing)
        ensures
            copy@ == self@,
    {
        Listing {
            name: self.name.clone(),
            seed: self.seed,
            mint: self.mint.clone(),
            funding_goal: self.funding_goal,
            pool_mint_supply: self.pool_mint_supply,
            funding_raised: self.funding_raised,
            available_tokens: self.available_tokens,
            base_price: self.base_price,
            tokens_sold: self.tokens_sold,
            bump: self.bump,
            vault_bump: self.vault_bump,
            mint_bump: self.mint_bump,
        }
    }
}

/// The signed number with the bits of `x`.
pub open spec fn as_signed(x: u64) -> int {
    if x < 0x8000_0000_0000_0000 {
        x as int
    } else {
        x - 0x1_0000_0000_0000_0000
    }
}

/// The unsigned number with the bits of `y`.
pub open spec fn as_unsigned(y: i64) -> int {
    if y >= 0 {
        y as int
    } else {
        y + 0x1_0000_0000_0000_0000
    }
}

/// The unsigned number of thirty-two bits that a signed one of sixteen
/// widens to, sign bits included.
pub open spec fn widened(y: i16) -> int {
    if y >= 0 {
        y as int
    } else {
        y + 0x1_0000_0000
    }
}

/// An unsigned quantity as the store's signed column holds it: the same
/// sixty-four bits.
pub fn to_signed(x: u64) -> (y: i64)
    ensures
        y == as_signed(x),
{
    if x < 0x8000_0000_0000_0000 {
        x as i64
    } else {
        let above: u64 = x - 0x8000_0000_0000_0000;
        (above as i64) + i64::MIN
    }
}

/// The unsigned quantity behind a signed column's value.
pub fn to_unsigned(y: i64) -> (x: u64)
    ensures
        x == as_unsigned(y),
{
    if y >= 0 {
        y as u64
    } else {
        let above: i64 = y - i64::MIN;
        (above as u64) + 0x8000_0000_0000_0000
    }
}

/// A small signed column's value as the wire's unsigned field holds it.
pub fn widen(y: i16) -> (x: u32)
    ensures
        x == widened(y),
{
    if y >= 0 {
        y as u32
    } else {
        let above: i32 = y as i32 + 0x8000;
        (above as u32) + 0xffff_8000
    }
}

/// Every unsigned quantity comes back from the signed column unchanged, and
/// every bump from the small one.
pub proof fn lemma_columns_round_trip(x: u64, b: u8)
    ensures
        i64::MIN <= as_signed(x) <= i64::MAX,
        as_unsigned(as_signed(x) as i64) == x,
        widened(b as i16) == b,
{
}

/// The parameters of the statement that stores a listing, in the types of
/// its columns.
#[derive(Debug)]
pub struct ListingRow {
    pub account: String,
    pub name: String,
    pub seed: i64,
    pub mint: String,
    pub funding_goal: i64,
    pub pool_mint_supply: String,
    pub funding_raised: i64,
    pub available_tokens: String,
    pub base_price: u64,
    pub tokens_sold: String,
    pub bump: i16,
    pub vault_bump: i16,
    pub mint_bump: i16,
}

/// What a row of parameters holds.
pub struct ListingRowView {
    pub account: Seq<char>,
    pub name: Seq<char>,
    pub seed: i64,
    pub mint: Seq<char>,
    pub funding_goal: i64,
    pub pool_mint_supply: Seq<char>,
    pub funding_raised: i64,
    pub available_tokens: Seq<char>,
    pub base_price: u64,
    pub tokens_sold: Seq<char>,
    pub bump: i16,
    pub vault_bump: i16,
    pub mint_bump: i16,
}

impl View for ListingRow {
    type V = ListingRowView;

    open spec fn view(&self) -> ListingRowView {
        ListingRowView {
            account: self.account@,
            name: self.name@,
            seed: self.seed,
            mint: self.mint@,
            funding_goal: self.funding_goal,
            pool_mint_supply: self.pool_mint_supply@,
            funding_raised: self.funding_raised,
            available_tokens: self.available_tokens@,
            base_price: self.base_price,
            tokens_sold: self.tokens_sold@,
            bump: self.bump,
            vault_bump: self.vault_bump,
            mint_bump: self.mint_bump,
        }
    }
}

/// The parameters under which `listing` is stored for `account`: the
/// account in base 58, quantities of 64 bits with their bits in a signed
/// column, quantities of 128 bits as decimal text, bumps widened.
pub open spec fn spec_bind(account: Address, listing: ListingView) -> ListingRowView {
    ListingRowView {
        account: base58_text(account@),
        name: listing.name,
        seed: as_signed(listing.seed) as i64,
        mint: listing.mint,
        funding_goal: as_signed(listing.funding_goal) as i64,
        pool_mint_supply: decimal_digits(listing.pool_mint_supply as nat),
        funding_raised: as_signed(listing.funding_raised) as i64,
        available_tokens: decimal_digits(listing.available_tokens as nat),
        base_price: listing.base_price,
        tokens_sold: decimal_digits(listing.tokens_sold as nat),
        bump: listing.bump as i16,
        vault_bump: listing.vault_bump as i16,
        mint_bump: listing.mint_bump as i16,
    }
}

/// The parameters of the insert-or-replace statement for `listing`.
pub fn bind_listing(account: &Address, listing: &Listing) -> (row: ListingRow)
    ensures
        row@ == spec_bind(*account, listing@),
{
    ListingRow {
        account: account.to_text(),
        name: listing.name.clone(),
        seed: to_signed(listing.seed),
        mint: listing.mint.clone(),
        funding_goal: to_signed(listing.funding_goal),
        pool_mint_supply: decimal_text(listing.pool_mint_supply),
        funding_raised: to_signed(listing.funding_raised),
        available_tokens: decimal_text(listing.available_tokens),
        base_price: listing.base_price,
        tokens_sold: decimal_text(listing.tokens_sold),
        bump: listing.bump as i16,
        vault_bump: listing.vault_bump as i16,
        mint_bump: listing.mint_bump as i16,
    }
}

/// The wire message of a listing.
#[derive(Debug)]
pub struct WireListing {
    pub account: String,
    pub name: String,
    pub seed: u64,
    pub mint: String,
    pub funding_goal: u64,
    pub pool_mint_supply: String,
    pub funding_raised: u64,
    pub available_tokens: String,
    pub base_price: u64,
    pub tokens_sold: String,
    pub bump: u32,
    pub vault_bump: u32,
    pub mint_bump: u32,
    pub updated_at: String,
}

/// What a wire message of a listing holds.
pub struct WireListingView {
    pub account: Seq<char>,
    pub name: Seq<char>,
    pub seed: u64,
    pub mint: Seq<char>,
    pub funding_goal: u64,
    pub pool_mint_supply: Seq<char>,
    pub funding_raised: u64,
    pub available_tokens: Seq<char>,
    pub base_price: u64,
    pub tokens_sold: Seq<char>,
    pub bump: u32,
    pub vault_bump: u32,
    pub mint_bump: u32,
    pub updated_at: Seq<char>,
}

impl View for WireListing {
    type V = WireListingView;

    open spec fn view(&self) -> WireListingView {
        WireListingView {
            account: self.account@,
            name: self.name@,
            seed: self.seed,
            mint: self.mint@,
            funding_goal: self.funding_goal,
            pool_mint_supply: self.pool_mint_supply@,
            funding_raised: self.funding_raised,
            available_tokens: self.available_tokens@,
            base_price: self.base_price,
            tokens_sold: self.tokens_sold@,
            bump: self.bump,
            vault_bump: self.vault_bump,
            mint_bump: self.mint_bump,
            updated_at: self.updated_at@,
        }
    }
}

/// The wire message of the canonical row `listing` of `account`: every
/// quantity of 128 bits as its decimal text, everything else as it is.
pub open spec fn spec_wire(account: Address, listing: ListingView, updated_at: Seq<char>)
    -> WireListingView {
    WireListingView {
        account: base58_text(account@),
        name: listing.name,
        seed: listing.seed,
        mint: listing.mint,
        funding_goal: listing.funding_goal,
        pool_mint_supply: decimal_digits(listing.pool_mint_supply as nat),
        funding_raised: listing.funding_raised,
        available_tokens: decimal_digits(listing.available_tokens as nat),
        base_price: listing.base_price,
        tokens_sold: decimal_digits(listing.tokens_sold as nat),
        bump: listing.bump as u32,
        vault_bump: listing.vault_bump as u32,
        mint_bump: listing.mint_bump as u32,
        updated_at,
    }
}

/// The wire message of a stored row: texts verbatim, signed columns back
/// to the unsigned quantities they hold.
pub open spec fn spec_wire_from_row(row: ListingRowView, updated_at: Seq<char>)
    -> WireListingView {
    WireListingView {
        account: row.account,
        name: row.name,
        seed: as_unsigned(row.seed) as u64,
        mint: row.mint,
        funding_goal: as_unsigned(row.funding_goal) as u64,
        pool_mint_supply: row.pool_mint_supply,
        funding_raised: as_unsigned(row.funding_raised) as u64,
        available_tokens: row.available_tokens,
        base_price: row.base_price,
        tokens_sold: row.tokens_sold,
        bump: widened(row.bump) as u32,
        vault_bump: widened(row.vault_bump) as u32,
        mint_bump: widened(row.mint_bump) as u32,
        updated_at,
    }
}

/// Encodes the canonical row of `account` for the wire.
pub fn encode_wire_listing(account: &Address, listing: &Listing, updated_at: &str) -> (wire:
    WireListing)
    ensures
        wire@ == spec_wire(*account, listing@, updated_at@),
{
    WireListing {
        account: account.to_text(),
        name: listing.name.clone(),
        seed: listing.seed,
        mint: listing.mint.clone(),
        funding_goal: listing.funding_goal,
        pool_mint_supply: decimal_text(listing.pool_mint_supply),
        funding_raised: listing.funding_raised,
        available_tokens: decimal_text(listing.available_tokens),
        base_price: listing.base_price,
        tokens_sold: decimal_text(listing.tokens_sold),
        bump: listing.bump as u32,
        vault_bump: listing.vault_bump as u32,
        mint_bump: listing.mint_bump as u32,
        updated_at: String::from_str(updated_at),
    }
}

/// Encodes a row as it was fetched from the store for the wire.
pub fn wire_listing_from_row(row: &ListingRow, updated_at: &str) -> (wire: WireListing)
    ensures
        wire@ == spec_wire_from_row(row@, updated_at@),
{
    WireListing {
        account: row.account.clone(),
        name: row.name.clone(),
        seed: to_unsigned(row.seed),
        mint: row.mint.clone(),
        funding_goal: to_unsigned(row.funding_goal),
        pool_mint_supply: row.pool_mint_supply.clone(),
        funding_raised: to_unsigned(row.funding_raised),
        available_tokens: row.available_tokens.clone(),
        base_price: row.base_price,
        tokens_sold: row.tokens_sold.clone(),
        bump: widen(row.bump),
        vault_bump: widen(row.vault_bump),
        mint_bump: widen(row.mint_bump),
        updated_at: String::from_str(updated_at),
    }
}

/// A listing that went through the store comes out on the wire with the
/// values it went in with: encoding the stored row gives the message of the
/// canonical row.
pub proof fn lemma_wire_through_store(account: Address, listing: ListingView, updated_at: Seq<char>)
    ensures
        spec_wire_from_row(spec_bind(account, listing), updated_at) == spec_wire(
            account,
            listing,
            updated_at,
        ),
{
    lemma_columns_round_trip(listing.seed, listing.bump);
    lemma_columns_round_trip(listing.funding_goal, listing.vault_bump);
    lemma_columns_round_trip(listing.funding_raised, listing.mint_bump);
}

/// The quantities of 128 bits come out of the wire message as they went in:
/// each of the three texts is decimal and stands for the quantity itself,
/// up to the largest value of 128 bits.
pub proof fn lemma_wire_keeps_quantities(
    account: Address,
    listing: ListingView,
    updated_at: Seq<char>,
)
    ensures
        ({
            let wire = spec_wire(account, listing, updated_at);
            &&& is_decimal(wire.pool_mint_supply)
            &&& decimal_value(wire.pool_mint_supply) == listing.pool_mint_supply
            &&& is_decimal(wire.available_tokens)
            &&& decimal_value(wire.available_tokens) == listing.available_tokens
            &&& is_decimal(wire.tokens_sold)
            &&& decimal_value(wire.tokens_sold) == listing.tokens_sold
        }),
{
    lemma_decimal_round_trip(listing.pool_mint_supply as nat);
    lemma_decimal_round_trip(listing.available_tokens as nat);
    lemma_decimal_round_trip(listing.tokens_sold as nat);
}

} // verus!
