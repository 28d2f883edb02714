//! Snapshots of a user's assets: each one the full state, each new one
//! carrying forward what the change behind it did not touch.

use crate::address::Address;
use crate::holdings::{merge_token_holding, spec_merge, TokenHolding};
use vstd::prelude::*;

verus! {

/// The full state of a user's assets as of one change.
#[derive(Debug)]
pub struct UserAssetSnapshot {
    /// The native balance, in lamports.
    pub lamports: u64,
    /// The token holdings, keyed by mint.
    pub token_holdings: Vec<TokenHolding>,
    /// The collectibles, a JSON array kept as text.
    pub nft_holdings: String,
    /// The ledger slot of the change: the key by which snapshots are ordered.
    pub sequence: u64,
}

/// What a snapshot holds.
pub struct SnapshotView {
    pub lamports: u64,
    pub token_holdings: Seq<TokenHolding>,
    pub nft_holdings: Seq<char>,
    pub sequence: u64,
}

impl View for UserAssetSnapshot {
    type V = SnapshotView;

    open spec fn view(&self) -> SnapshotView {
        SnapshotView {
            lamports: self.lamports,
            token_holdings: self.token_holdings@,
            nft_holdings: self.nft_holdings@,
            sequence: self.sequence,
        }
    }
}

/// One change to a user's assets.
#[derive(Clone, Copy, Debug)]
pub enum AssetChange {
    /// The native balance is now `lamports`.
    Balance { lamports: u64 },
    /// The user now holds `amount` of `mint`.
    Holding { mint: Address, amount: u64 },
}

/// What stands for the previous snapshot of a user seen for the first time:
/// no balance, no tokens, an empty array of collectibles.
pub open spec fn first_snapshot() -> SnapshotView {
    SnapshotView {
        lamports: 0,
        token_holdings: Seq::empty(),
        nft_holdings: "[]"@,
        sequence: 0,
    }
}

/// The snapshot that follows `previous` after `change` at `sequence`: the
/// change's own field is new, every other field is carried forward.
pub open spec fn spec_apply(previous: SnapshotView, change: AssetChange, sequence: u64)
    -> SnapshotView {
    match change {
        AssetChange::Balance { lamports } => SnapshotView {
            lamports,
            token_holdings: previous.token_holdings,
            nft_holdings: previous.nft_holdings,
            sequence,
        },
        AssetChange::Holding { mint, amount } => SnapshotView {
            lamports: previous.lamports,
            token_holdings: spec_merge(previous.token_holdings, mint, amount),
            nft_holdings: previous.nft_holdings,
            sequence,
        },
    }
}

/// What `previous` stands for: the snapshot, or the first one where there is
/// none.
pub open spec fn or_first(previous: Option<&UserAssetSnapshot>) -> SnapshotView {
    match previous {
        Some(snapshot) => snapshot@,
        None => first_snapshot(),
    }
}

/// A copy of a list of holdings.
pub fn copy_holdings(holdings: &Vec<TokenHolding>) -> (copy: Vec<TokenHolding>)
    ensures
        copy@ == holdings@,
{
    let mut copy: Vec<TokenHolding> = Vec::new();
    let mut i: usize = 0;
    while i < holdings.len()
        invariant
            i <= holdings.len(),
            copy@ == holdings@.take(i as int),
        decreases holdings.len() - i,
    {
        copy.push(holdings[i]);
        assert(holdings@.take(i + 1) =~= holdings@.take(i as int).push(holdings@[i as int]));
        i += 1;
    }
    assert(holdings@.take(holdings.len() as int) =~= holdings@);
    copy
}

impl UserAssetSnapshot {
    /// A second copy of the snapshot.
    pub fn duplicate(&self) -> (copy: UserAssetSnapshot)
        ensures
            copy@ == self@,
    {
        UserAssetSnapshot {
            lamports: self.lamports,
            token_holdings: copy_holdings(&self.token_holdings),
            nft_holdings: self.nft_holdings.clone(),
            sequence: self.sequence,
        }
    }
}

/// The snapshot to append after `previous`, the latest one of the user (or
/// `None` where the user has none yet), for `change` at `sequence`.
pub fn next_snapshot(previous: Option<&UserAssetSnapshot>, change: &AssetChange, sequence: u64)
    -> (next: UserAssetSnapshot)
    ensures
        next@ == spec_apply(or_first(previous), *change, sequence),
{
    let empty: Vec<TokenHolding> = Vec::new();
    let (lamports, holdings, nfts) = match previous {
        Some(snapshot) => (snapshot.lamports, &snapshot.token_holdings, snapshot.nft_holdings.clone()),
        None => (0, &empty, String::from_str("[]")),
    };
    match change {
        AssetChange::Balance { lamports: observed } => UserAssetSnapshot {
            lamports: *observed,
            token_holdings: copy_holdings(holdings),
            nft_holdings: nfts,
            sequence,
        },
        AssetChange::Holding { mint, amount } => UserAssetSnapshot {
            lamports,
            token_holdings: merge_token_holding(holdings, mint, *amount),
            nft_holdings: nfts,
            sequence,
        },
    }
}

/// Why no snapshot follows.
#[derive(Clone, Copy, Debug, PartialEq, Eq)]
pub enum SnapshotError {
    /// The change is older than the snapshot it would follow: its fields
    /// would be carried over newer ones.
    StaleSequence,
}

/// Whether a change at `sequence` comes too late to follow `previous`.
pub open spec fn comes_late(previous: Option<&UserAssetSnapshot>, sequence: u64) -> bool {
    previous matches Some(snapshot) && sequence < snapshot.sequence
}

/// The snapshot to append after `previous` for `change` at `sequence`,
/// unless the change is older than `previous`: snapshots are ordered by
/// their slots, not by the time at which they happen to be written.
pub fn try_next_snapshot(
    previous: Option<&UserAssetSnapshot>,
    change: &AssetChange,
    sequence: u64,
) -> (r: Result<UserAssetSnapshot, SnapshotError>)
    ensures
        match r {
            Ok(next) => !comes_late(previous, sequence) && next@ == spec_apply(
                or_first(previous),
                *change,
                sequence,
            ),
            Err(SnapshotError::StaleSequence) => comes_late(previous, sequence),
        },
{
    let late = match previous {
        Some(snapshot) => sequence < snapshot.sequence,
        None => false,
    };
    if late {
        Err(SnapshotError::StaleSequence)
    } else {
        Ok(next_snapshot(previous, change, sequence))
    }
}

/// A change of the balance leaves the holdings and the collectibles as they
/// were; a change of a holding leaves the balance and the collectibles.
pub proof fn lemma_carry_forward(previous: SnapshotView, change: AssetChange, sequence: u64)
    ensures
        spec_apply(previous, change, sequence).nft_holdings == previous.nft_holdings,
        spec_apply(previous, change, sequence).sequence == sequence,
        change is Balance ==> spec_apply(previous, change, sequence).token_holdings
            == previous.token_holdings && spec_apply(previous, change, sequence).lamports
            == change->lamports,
        change is Holding ==> spec_apply(previous, change, sequence).lamports
            == previous.lamports,
{
}

} // verus!
