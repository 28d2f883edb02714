//! The projection store: one current row per listing account and one
//! append-only log of snapshots per user.

use crate::address::Address;
use crate::holdings::{keyed_by_mint, lemma_merge_keeps_keys};
use crate::listing::{Listing, ListingView};
use crate::snapshot::{
    first_snapshot, spec_apply, try_next_snapshot, AssetChange, SnapshotView, UserAssetSnapshot,
};
use crate::table::Table;
use vstd::prelude::*;

verus! {

/// A listing row with the time of its last write.
pub struct StoredListing {
    pub listing: Listing,
    pub updated_at: u64,
}

/// Why the store refused a write.
#[derive(Clone, Copy, Debug, PartialEq, Eq)]
pub enum StoreError {
    /// The change is older than the user's latest snapshot: appending it
    /// would carry stale fields over newer ones.
    StaleSequence,
}

/// What the store holds: under each listing account its row and the time of
/// its last write, under each user the snapshots in the order they came.
pub struct StoreView {
    pub listings: Map<Seq<u8>, (ListingView, u64)>,
    pub logs: Map<Seq<u8>, Seq<SnapshotView>>,
}

/// The views of the snapshots of a log.
pub open spec fn log_view(log: Vec<UserAssetSnapshot>) -> Seq<SnapshotView> {
    Seq::new(log@.len(), |i: int| log@[i]@)
}

/// Whether the holdings of every snapshot of a log are keyed by mint.
pub open spec fn keyed(log: Seq<SnapshotView>) -> bool {
    forall|i: int| 0 <= i < log.len() ==> keyed_by_mint((#[trigger] log[i]).token_holdings)
}

/// Whether the snapshots of a log stand in the order of their slots.
pub open spec fn ordered(log: Seq<SnapshotView>) -> bool {
    forall|i: int, j: int|
        0 <= i <= j < log.len() ==> (#[trigger] log[i]).sequence <= (#[trigger] log[j]).sequence
}

/// The time of a write at `now` over a row last written at `previous`: time
/// does not run backwards.
pub open spec fn advanced(previous: Option<(ListingView, u64)>, now: u64) -> u64 {
    match previous {
        Some((_, written)) => if written > now {
            written
        } else {
            now
        },
        None => now,
    }
}

/// The row of `account`, if the store has one.
pub open spec fn row_of(store: StoreView, account: Seq<u8>) -> Option<(ListingView, u64)> {
    if store.listings.contains_key(account) {
        Some(store.listings[account])
    } else {
        None
    }
}

/// The log of `user`, empty where the user was never seen.
pub open spec fn log_of(store: StoreView, user: Seq<u8>) -> Seq<SnapshotView> {
    if store.logs.contains_key(user) {
        store.logs[user]
    } else {
        Seq::empty()
    }
}

/// The current state of a log: its last snapshot, or the first snapshot of
/// all where the log is empty.
pub open spec fn latest(log: Seq<SnapshotView>) -> SnapshotView {
    if log.len() == 0 {
        first_snapshot()
    } else {
        log.last()
    }
}

/// The store after `listing` was written for `account` at `now`.
pub open spec fn spec_upsert(store: StoreView, account: Seq<u8>, listing: ListingView, now: u64)
    -> StoreView {
    StoreView {
        listings: store.listings.insert(
            account,
            (listing, advanced(row_of(store, account), now)),
        ),
        logs: store.logs,
    }
}

/// Whether a change at `sequence` comes too late for `user`.
pub open spec fn is_stale(store: StoreView, user: Seq<u8>, sequence: u64) -> bool {
    log_of(store, user).len() > 0 && sequence < log_of(store, user).last().sequence
}

/// The store after `change` at `sequence` was appended for `user`.
pub open spec fn spec_append(store: StoreView, user: Seq<u8>, change: AssetChange, sequence: u64)
    -> StoreView {
    StoreView {
        listings: store.listings,
        logs: store.logs.insert(
            user,
            log_of(store, user).push(spec_apply(latest(log_of(store, user)), change, sequence)),
        ),
    }
}

/// The projection: the canonical current state of every listing and the
/// history of every user's assets.
pub struct ProjectionStore {
    listings: Table<StoredListing>,
    logs: Table<Vec<UserAssetSnapshot>>,
}

impl View for ProjectionStore {
    type V = StoreView;

    closed spec fn view(&self) -> StoreView {
        StoreView {
            listings: Map::new(
                |k: Seq<u8>| self.listings@.contains_key(k),
                |k: Seq<u8>| (self.listings@[k].listing@, self.listings@[k].updated_at),
            ),
            logs: Map::new(
                |k: Seq<u8>| self.logs@.contains_key(k),
                |k: Seq<u8>| log_view(self.logs@[k]),
            ),
        }
    }
}

impl ProjectionStore {
    /// Whether the store is well formed: one row per account, one log per
    /// user, no log empty, every log in the order of its slots, and the
    /// holdings of every snapshot keyed by mint.
    pub closed spec fn wf(&self) -> bool {
        &&& self.listings.wf()
        &&& self.logs.wf()
        &&& forall|k: Seq<u8>| #[trigger]
            self.logs@.contains_key(k) ==> self.logs@[k]@.len() > 0 && ordered(
                log_view(self.logs@[k]),
            ) && keyed(log_view(self.logs@[k]))
    }

    /// In a well-formed store no log is empty, every log is ordered, so that
    /// its last snapshot is the one with the greatest slot, and no snapshot
    /// holds a mint twice.
    pub proof fn lemma_logs_ordered(&self, user: Seq<u8>)
        requires
            self.wf(),
            self@.logs.contains_key(user),
        ensures
            self@.logs[user].len() > 0,
            ordered(self@.logs[user]),
            keyed(self@.logs[user]),
            forall|i: int|
                0 <= i < self@.logs[user].len() ==> (#[trigger] self@.logs[user][i]).sequence
                    <= latest(self@.logs[user]).sequence,
    {
        assert(self.logs@.contains_key(user));
        let log = self@.logs[user];
        assert forall|i: int| 0 <= i < log.len() implies (#[trigger] log[i]).sequence <= latest(
            log,
        ).sequence by {
            assert(log[i].sequence <= log[log.len() - 1].sequence);
        }
    }

    /// The empty store.
    pub fn new() -> (store: ProjectionStore)
        ensures
            store.wf(),
            store@.listings == Map::<Seq<u8>, (ListingView, u64)>::empty(),
            store@.logs == Map::<Seq<u8>, Seq<SnapshotView>>::empty(),
    {
        let store = ProjectionStore { listings: Table::new(), logs: Table::new() };
        assert(store@.listings =~= Map::<Seq<u8>, (ListingView, u64)>::empty());
        assert(store@.logs =~= Map::<Seq<u8>, Seq<SnapshotView>>::empty());
        store
    }

    /// Writes the row of `account`, in place of the one it had if it had
    /// one, and returns the time the row now carries: `now`, or the time of
    /// its last write where that is later.
    pub fn upsert_listing(&mut self, account: &Address, listing: Listing, now: u64) -> (updated_at:
        u64)
        requires
            old(self).wf(),
        ensures
            final(self).wf(),
            final(self)@ == spec_upsert(old(self)@, account@, listing@, now),
            updated_at == advanced(row_of(old(self)@, account@), now),
    {
        let updated_at = match self.listings.get(account) {
            Some(row) => if row.updated_at > now {
                row.updated_at
            } else {
                now
            },
            None => now,
        };
        self.listings.put(*account, StoredListing { listing, updated_at });
        proof {
            let want = spec_upsert(old(self)@, account@, listing@, now);
            assert(self@.listings =~= want.listings);
            assert(self@.logs =~= want.logs);
        }
        updated_at
    }

    /// Appends to the log of `user` the snapshot that follows its latest one
    /// after `change` at slot `sequence`; the log of a user seen for the
    /// first time begins here. A change older than the latest snapshot is
    /// refused and leaves the store as it was.
    pub fn append_user_snapshot(&mut self, user: &Address, change: &AssetChange, sequence: u64)
        -> (r: Result<(), StoreError>)
        requires
            old(self).wf(),
        ensures
            final(self).wf(),
            match r {
                Ok(_) => !is_stale(old(self)@, user@, sequence) && final(self)@ == spec_append(
                    old(self)@,
                    user@,
                    *change,
                    sequence,
                ),
                Err(StoreError::StaleSequence) => is_stale(old(self)@, user@, sequence)
                    && final(self)@ == old(self)@,
            },
    {
        let ghost before = log_of(old(self)@, user@);
        let next = match self.logs.get(user) {
            Some(log) => {
                assert(self.logs@.contains_key(user@));
                assert(log_view(*log).last() == log@[log@.len() - 1]@);
                try_next_snapshot(Some(&log[log.len() - 1]), change, sequence)
            },
            None => try_next_snapshot(None, change, sequence),
        };
        let next = match next {
            Ok(next) => next,
            Err(_) => {
                return Err(StoreError::StaleSequence);
            },
        };
        let mut log = match self.logs.take(user) {
            Some(log) => log,
            None => Vec::new(),
        };
        assert(log_view(log) =~= before);
        assert(next@ == spec_apply(latest(before), *change, sequence));
        log.push(next);
        proof {
            assert(log_view(log) =~= before.push(next@));
            assert(keyed_by_mint(latest(before).token_holdings)) by {
                if before.len() > 0 {
                    assert(keyed_by_mint(before[before.len() - 1].token_holdings));
                }
            }
            assert(keyed_by_mint(next@.token_holdings)) by {
                match *change {
                    AssetChange::Balance { lamports } => {},
                    AssetChange::Holding { mint, amount } => {
                        lemma_merge_keeps_keys(latest(before).token_holdings, mint, amount);
                    },
                }
            }
            assert forall|i: int| 0 <= i < log_view(log).len() implies keyed_by_mint(
                (#[trigger] log_view(log)[i]).token_holdings,
            ) by {
                if i < before.len() {
                    assert(log_view(log)[i] == before[i]);
                }
            }
            assert forall|i: int, j: int| 0 <= i <= j < log_view(log).len() implies (
            #[trigger] log_view(log)[i]).sequence <= (#[trigger] log_view(log)[j]).sequence by {
                if j < before.len() {
                    assert(log_view(log)[i] == before[i] && log_view(log)[j] == before[j]);
                } else if i < before.len() {
                    assert(log_view(log)[i] == before[i]);
                    assert(before[i].sequence <= before[before.len() - 1].sequence);
                }
            }
        }
        self.logs.put(*user, log);
        proof {
            let want = spec_append(old(self)@, user@, *change, sequence);
            assert(self@.listings =~= want.listings);
            assert(self@.logs =~= want.logs);
            assert forall|k: Seq<u8>| #[trigger] self.logs@.contains_key(k) implies self.logs@[k]@.len()
                > 0 && ordered(log_view(self.logs@[k])) && keyed(log_view(self.logs@[k])) by {
                if k != user@ {
                    assert(old(self).logs@.contains_key(k));
                }
            }
        }
        Ok(())
    }

    /// The row of `account` with the time of its last write, if there is one.
    pub fn fetch_listing(&self, account: &Address) -> (r: Option<StoredListing>)
        requires
            self.wf(),
        ensures
            match r {
                Some(row) => row_of(self@, account@) == Some((row.listing@, row.updated_at)),
                None => row_of(self@, account@) is None,
            },
    {
        match self.listings.get(account) {
            Some(row) => Some(
                StoredListing { listing: row.listing.duplicate(), updated_at: row.updated_at },
            ),
            None => None,
        }
    }

    /// The current state of `user`: the latest snapshot, if there is one.
    pub fn fetch_user_assets(&self, user: &Address) -> (r: Option<UserAssetSnapshot>)
        requires
            self.wf(),
        ensures
            match r {
                Some(snapshot) => log_of(self@, user@).len() > 0 && snapshot@ == log_of(
                    self@,
                    user@,
                ).last(),
                None => log_of(self@, user@).len() == 0,
            },
    {
        match self.logs.get(user) {
            Some(log) => {
                assert(self.logs@.contains_key(user@));
                assert(log_view(*log).last() == log@[log@.len() - 1]@);
                Some(log[log.len() - 1].duplicate())
            },
            None => None,
        }
    }
}

/// Writing the same row twice leaves one row with the same fields, and its
/// time of writing does not go back; every other row and every log stays.
pub proof fn lemma_upsert_idempotent(
    store: StoreView,
    account: Seq<u8>,
    listing: ListingView,
    first: u64,
    second: u64,
)
    ensures
        ({
            let once = spec_upsert(store, account, listing, first);
            let twice = spec_upsert(once, account, listing, second);
            &&& twice.listings.dom() == once.listings.dom()
            &&& twice.listings[account].0 == once.listings[account].0
            &&& twice.listings[account].0 == listing
            &&& twice.listings[account].1 >= once.listings[account].1
            &&& once.listings[account].1 >= first
            &&& twice.logs == store.logs
            &&& forall|other: Seq<u8>|
                other != account ==> row_of(twice, other) == row_of(store, other)
        }),
{
    let once = spec_upsert(store, account, listing, first);
    let twice = spec_upsert(once, account, listing, second);
    assert(twice.listings.dom() =~= once.listings.dom());
}

/// A log only grows: an append leaves every earlier snapshot of the user
/// where it was, makes the new snapshot the current one, and touches no other
/// user and no listing.
pub proof fn lemma_append_only(store: StoreView, user: Seq<u8>, change: AssetChange, sequence: u64)
    ensures
        ({
            let after = spec_append(store, user, change, sequence);
            &&& log_of(after, user).len() == log_of(store, user).len() + 1
            &&& log_of(after, user).drop_last() == log_of(store, user)
            &&& latest(log_of(after, user)) == spec_apply(
                latest(log_of(store, user)),
                change,
                sequence,
            )
            &&& after.listings == store.listings
            &&& forall|other: Seq<u8>| other != user ==> log_of(after, other) == log_of(store, other)
        }),
{
    let after = spec_append(store, user, change, sequence);
    assert(log_of(after, user).drop_last() =~= log_of(store, user));
}

} // verus!
