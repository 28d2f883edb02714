//! The wire message of a user's assets.

use crate::address::{base58_text, Address};
use crate::balance::{sol_balance_text, sol_digits};
use crate::decimal::{decimal_digits, decimal_text};
use crate::holdings::TokenHolding;
use crate::snapshot::{SnapshotView, UserAssetSnapshot};
use vstd::prelude::*;

verus! {

/// The wire message of a user's assets: the balance in SOL as exact decimal
/// text, the holdings and the collectibles as JSON text.
#[derive(Debug)]
pub struct WireUserAssets {
    pub address: String,
    pub sol_balance: String,
    pub token_holdings: String,
    pub nft_holdings: String,
    pub updated_at: String,
}

/// What a wire message of a user's assets holds.
pub struct WireUserAssetsView {
    pub address: Seq<char>,
    pub sol_balance: Seq<char>,
    pub token_holdings: Seq<char>,
    pub nft_holdings: Seq<char>,
    pub updated_at: Seq<char>,
}

impl View for WireUserAssets {
    type V = WireUserAssetsView;

    open spec fn view(&self) -> WireUserAssetsView {
        WireUserAssetsView {
            address: self.address@,
            sol_balance: self.sol_balance@,
            token_holdings: self.token_holdings@,
            nft_holdings: self.nft_holdings@,
            updated_at: self.updated_at@,
        }
    }
}

impl WireUserAssets {
    /// A second copy of the message.
    pub fn duplicate(&self) -> (copy: WireUserAssets)
        ensures
            copy@ == self@,
    {
        WireUserAssets {
            address: self.address.clone(),
            sol_balance: self.sol_balance.clone(),
            token_holdings: self.token_holdings.clone(),
            nft_holdings: self.nft_holdings.clone(),
            updated_at: self.updated_at.clone(),
        }
    }
}

/// The text of the JSON object with one member whose value is a string and
/// one whose value is a number, as `serde_json` writes it.
pub uninterp spec fn json_pair_text(
    text_key: Seq<char>,
    text: Seq<char>,
    number_key: Seq<char>,
    number: u64,
) -> Seq<char>;

/// Builds a `serde_json::Value::Object` of a string member and a number
/// member and writes it with `to_string`. Trusted: the text is the one
/// `serde_json` gives for these keys and values, and depends on nothing else.
#[verifier::external_body]
fn json_pair(text_key: &str, text: &str, number_key: &str, number: u64) -> (out: String)
    ensures
        out@ == json_pair_text(text_key@, text@, number_key@, number),
{
    let mut members = serde_json::Map::new();
    members.insert(text_key.to_string(), serde_json::Value::String(text.to_string()));
    members.insert(number_key.to_string(), serde_json::Value::from(number));
    serde_json::Value::Object(members).to_string()
}

/// The JSON object of one holding: its mint in base 58 and its amount.
pub open spec fn holding_text(holding: TokenHolding) -> Seq<char> {
    json_pair_text("mint"@, base58_text(holding.mint@), "amount"@, holding.amount)
}

/// The objects of the holdings, with a comma between each two.
pub open spec fn joined(holdings: Seq<TokenHolding>) -> Seq<char>
    decreases holdings.len(),
{
    if holdings.len() == 0 {
        Seq::empty()
    } else if holdings.len() == 1 {
        holding_text(holdings[0])
    } else {
        joined(holdings.drop_last()) + seq![','] + holding_text(holdings.last())
    }
}

/// The JSON array of the holdings.
pub open spec fn holdings_text(holdings: Seq<TokenHolding>) -> Seq<char> {
    seq!['['] + joined(holdings) + seq![']']
}

/// The holdings as the text of a JSON array of objects, in their order.
pub fn holdings_json(holdings: &Vec<TokenHolding>) -> (text: String)
    ensures
        text@ == holdings_text(holdings@),
{
    proof {
        reveal_strlit("[");
        reveal_strlit("]");
        reveal_strlit(",");
    }
    let mut text = String::from_str("[");
    let mut i: usize = 0;
    assert(holdings@.take(0) =~= Seq::<TokenHolding>::empty());
    assert(text@ =~= seq!['['] + joined(holdings@.take(0)));
    while i < holdings.len()
        invariant
            i <= holdings.len(),
            ","@ == seq![','],
            text@ == seq!['['] + joined(holdings@.take(i as int)),
        decreases holdings.len() - i,
    {
        let ghost before = text@;
        let ghost done = holdings@.take(i as int);
        let ghost next = holdings@.take(i + 1);
        if i > 0 {
            text.append(",");
        }
        let mint = holdings[i].mint.to_text();
        let object = json_pair("mint", mint.as_str(), "amount", holdings[i].amount);
        text.append(object.as_str());
        proof {
            assert(next.drop_last() =~= done);
            assert(next.last() == holdings@[i as int]);
            if i == 0 {
                assert(next[0] == holdings@[0]);
                assert(text@ =~= seq!['['] + joined(next));
            } else {
                assert(joined(next) == joined(done) + seq![','] + holding_text(next.last()));
                assert(text@ =~= seq!['['] + joined(next));
            }
        }
        i += 1;
    }
    assert(holdings@.take(holdings.len() as int) =~= holdings@);
    text.append("]");
    text
}

/// The wire message of the snapshot of the user at `address`.
pub open spec fn spec_wire_assets(address: Address, snapshot: SnapshotView) -> WireUserAssetsView {
    WireUserAssetsView {
        address: base58_text(address@),
        sol_balance: sol_digits(snapshot.lamports as nat),
        token_holdings: holdings_text(snapshot.token_holdings),
        nft_holdings: snapshot.nft_holdings,
        updated_at: decimal_digits(snapshot.sequence as nat),
    }
}

/// Encodes the current state of the user at `address` for the wire: the
/// balance in SOL, the holdings as a JSON array, the collectibles verbatim,
/// and the slot of the snapshot as the time of the update.
pub fn encode_wire_user_assets(address: &Address, snapshot: &UserAssetSnapshot) -> (wire:
    WireUserAssets)
    ensures
        wire@ == spec_wire_assets(*address, snapshot@),
{
    WireUserAssets {
        address: address.to_text(),
        sol_balance: sol_balance_text(snapshot.lamports),
        token_holdings: holdings_json(&snapshot.token_holdings),
        nft_holdings: snapshot.nft_holdings.clone(),
        updated_at: decimal_text(snapshot.sequence as u128),
    }
}

/// Encodes a row of a user's table as it was fetched from the store: every
/// column verbatim.
pub fn wire_user_assets_from_row(
    address: &str,
    sol_balance: &str,
    token_holdings: &str,
    nft_holdings: &str,
    updated_at: &str,
) -> (wire: WireUserAssets)
    ensures
        wire@ == (WireUserAssetsView {
            address: address@,
            sol_balance: sol_balance@,
            token_holdings: token_holdings@,
            nft_holdings: nft_holdings@,
            updated_at: updated_at@,
        }),
{
    WireUserAssets {
        address: String::from_str(address),
        sol_balance: String::from_str(sol_balance),
        token_holdings: String::from_str(token_holdings),
        nft_holdings: String::from_str(nft_holdings),
        updated_at: String::from_str(updated_at),
    }
}

} // verus!
