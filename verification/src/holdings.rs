//! Token holdings of a user: a list keyed by mint, and the rule by which an
//! observed token account changes it.

use crate::address::Address;
use vstd::prelude::*;

verus! {

/// What a user holds of one token.
#[derive(Clone, Copy, Debug)]
pub struct TokenHolding {
    /// The token's mint.
    pub mint: Address,
    /// The amount held, in the token's smallest unit.
    pub amount: u64,
}

/// The holdings of every mint but `mint`, in their order.
pub open spec fn without_mint(holdings: Seq<TokenHolding>, mint: Address) -> Seq<TokenHolding>
    decreases holdings.len(),
{
    if holdings.len() == 0 {
        Seq::empty()
    } else if holdings.last().mint@ == mint@ {
        without_mint(holdings.drop_last(), mint)
    } else {
        without_mint(holdings.drop_last(), mint).push(holdings.last())
    }
}

/// The holdings after `amount` of `mint` was observed: the entry of `mint`
/// leaves, and a new one joins at the end unless the amount is zero.
pub open spec fn spec_merge(holdings: Seq<TokenHolding>, mint: Address, amount: u64) -> Seq<
    TokenHolding,
> {
    if amount > 0 {
        without_mint(holdings, mint).push(TokenHolding { mint, amount })
    } else {
        without_mint(holdings, mint)
    }
}

/// Whether no mint occurs twice.
pub open spec fn keyed_by_mint(holdings: Seq<TokenHolding>) -> bool {
    forall|i: int, j: int|
        0 <= i < j < holdings.len() ==> (#[trigger] holdings[i]).mint@ != (
        #[trigger] holdings[j]).mint@
}

/// Records that the user now holds `amount` of `mint`. Any entry of that mint
/// is removed; unless `amount` is zero a new entry is added at the end. A
/// zero amount therefore deletes the holding.
pub fn merge_token_holding(holdings: &Vec<TokenHolding>, mint: &Address, amount: u64) -> (merged:
    Vec<TokenHolding>)
    ensures
        merged@ == spec_merge(holdings@, *mint, amount),
{
    let mut merged: Vec<TokenHolding> = Vec::new();
    let mut i: usize = 0;
    assert(holdings@.take(0) =~= Seq::<TokenHolding>::empty());
    while i < holdings.len()
        invariant
            i <= holdings.len(),
            merged@ == without_mint(holdings@.take(i as int), *mint),
        decreases holdings.len() - i,
    {
        let h = holdings[i];
        proof {
            let next = holdings@.take(i + 1);
            assert(next.drop_last() =~= holdings@.take(i as int));
            assert(next.last() == h);
        }
        if !h.mint.same(mint) {
            merged.push(h);
        }
        i += 1;
    }
    assert(holdings@.take(holdings.len() as int) =~= holdings@);
    if amount > 0 {
        merged.push(TokenHolding { mint: *mint, amount });
    }
    merged
}

/// A list keyed by mint stays so without its last entry.
proof fn lemma_front_keyed(holdings: Seq<TokenHolding>)
    requires
        keyed_by_mint(holdings),
        holdings.len() > 0,
    ensures
        keyed_by_mint(holdings.drop_last()),
{
    let front = holdings.drop_last();
    assert forall|i: int, j: int| 0 <= i < j < front.len() implies (#[trigger] front[i]).mint@ != (
    #[trigger] front[j]).mint@ by {
        assert(front[i] == holdings[i] && front[j] == holdings[j]);
    }
}

/// Every entry that `without_mint` keeps stands in the list it was made
/// from, and is of another mint.
pub proof fn lemma_kept_comes_from(holdings: Seq<TokenHolding>, mint: Address)
    ensures
        without_mint(holdings, mint).len() <= holdings.len(),
        forall|i: int|
            0 <= i < without_mint(holdings, mint).len() ==> (#[trigger] without_mint(
                holdings,
                mint,
            )[i]).mint@ != mint@ && exists|k: int|
                0 <= k < holdings.len() && holdings[k] == without_mint(holdings, mint)[i],
    decreases holdings.len(),
{
    let kept = without_mint(holdings, mint);
    if holdings.len() > 0 {
        let front = holdings.drop_last();
        lemma_kept_comes_from(front, mint);
        let front_kept = without_mint(front, mint);
        assert forall|i: int| 0 <= i < kept.len() implies (#[trigger] kept[i]).mint@ != mint@
            && exists|k: int| 0 <= k < holdings.len() && holdings[k] == kept[i] by {
            if i < front_kept.len() {
                assert(kept[i] == front_kept[i]);
                let k = choose|k: int| 0 <= k < front.len() && front[k] == front_kept[i];
                assert(holdings[k] == front[k]);
            } else {
                assert(kept[i] == holdings[holdings.len() - 1]);
            }
        }
    }
}

/// Removing a mint from a list that holds none of it changes nothing.
pub proof fn lemma_without_absent(holdings: Seq<TokenHolding>, mint: Address)
    requires
        forall|i: int| 0 <= i < holdings.len() ==> (#[trigger] holdings[i]).mint@ != mint@,
    ensures
        without_mint(holdings, mint) == holdings,
    decreases holdings.len(),
{
    if holdings.len() > 0 {
        let front = holdings.drop_last();
        assert forall|i: int| 0 <= i < front.len() implies (#[trigger] front[i]).mint@
            != mint@ by {
            assert(front[i] == holdings[i]);
        }
        lemma_without_absent(front, mint);
        assert(holdings.last() == holdings[holdings.len() - 1]);
        assert(front.push(holdings.last()) =~= holdings);
    } else {
        assert(holdings =~= Seq::<TokenHolding>::empty());
    }
}

/// Removing a mint leaves a list keyed by mint keyed by mint.
pub proof fn lemma_without_keeps_keys(holdings: Seq<TokenHolding>, mint: Address)
    requires
        keyed_by_mint(holdings),
    ensures
        keyed_by_mint(without_mint(holdings, mint)),
    decreases holdings.len(),
{
    let kept = without_mint(holdings, mint);
    if holdings.len() > 0 {
        let front = holdings.drop_last();
        lemma_front_keyed(holdings);
        lemma_without_keeps_keys(front, mint);
        lemma_kept_comes_from(front, mint);
        let front_kept = without_mint(front, mint);
        assert forall|i: int, j: int| 0 <= i < j < kept.len() implies (#[trigger] kept[i]).mint@
            != (#[trigger] kept[j]).mint@ by {
            if j < front_kept.len() {
                assert(kept[i] == front_kept[i] && kept[j] == front_kept[j]);
            } else {
                assert(kept[i] == front_kept[i]);
                let k = choose|k: int| 0 <= k < front.len() && front[k] == front_kept[i];
                assert(holdings[k] == front[k]);
                assert(holdings[holdings.len() - 1] == kept[j]);
            }
        }
    }
}

/// Merging the same observation twice changes nothing the second time.
pub proof fn lemma_merge_idempotent(holdings: Seq<TokenHolding>, mint: Address, amount: u64)
    ensures
        spec_merge(spec_merge(holdings, mint, amount), mint, amount) == spec_merge(
            holdings,
            mint,
            amount,
        ),
{
    let kept = without_mint(holdings, mint);
    lemma_kept_comes_from(holdings, mint);
    lemma_without_absent(kept, mint);
    if amount > 0 {
        let once = kept.push(TokenHolding { mint, amount });
        assert(once.drop_last() =~= kept);
        assert(once.last().mint@ == mint@);
        assert(without_mint(once, mint) == without_mint(kept, mint));
    }
}

/// A merge leaves a list keyed by mint keyed by mint, and what it then holds
/// of the merged mint is the observed amount alone, or nothing for amount
/// zero.
pub proof fn lemma_merge_keeps_keys(holdings: Seq<TokenHolding>, mint: Address, amount: u64)
    requires
        keyed_by_mint(holdings),
    ensures
        keyed_by_mint(spec_merge(holdings, mint, amount)),
        forall|i: int|
            0 <= i < spec_merge(holdings, mint, amount).len() && (#[trigger] spec_merge(
                holdings,
                mint,
                amount,
            )[i]).mint@ == mint@ ==> amount > 0 && spec_merge(holdings, mint, amount)[i].amount
                == amount,
{
    lemma_kept_comes_from(holdings, mint);
    lemma_without_keeps_keys(holdings, mint);
    let kept = without_mint(holdings, mint);
    let merged = spec_merge(holdings, mint, amount);
    if amount > 0 {
        assert forall|i: int, j: int| 0 <= i < j < merged.len() implies (#[trigger] merged[i]).mint@
            != (#[trigger] merged[j]).mint@ by {
            assert(merged[i] == kept[i]);
            if j < kept.len() {
                assert(merged[j] == kept[j]);
            }
        }
        assert forall|i: int|
            0 <= i < merged.len() && (#[trigger] merged[i]).mint@ == mint@ implies merged[i].amount
            == amount by {
            if i < kept.len() {
                assert(merged[i] == kept[i]);
            }
        }
    }
}

} // verus!
