//! The ingestion filter: what one mutation event means for the projection,
//! given the watch-lists.

use crate::address::{address_of, base58_text, contains, lemma_address_of, spec_contains, Address};
use crate::bus::{ChangeEvent, ChangeKind};
use crate::codec::{
    decode_error, decode_listing, decoded, fixed_at, name_bytes, price_bits, AnchorListing,
    DecodeError,
};
use crate::config::{loaded, Config, ConfigError, WatchConfig};
use crate::listing::{spec_from_anchor, Listing, ListingView};
use crate::reader::{field, le_value};
use crate::snapshot::AssetChange;
use crate::store::{is_stale, spec_append, spec_upsert, ProjectionStore, StoreView};
use crate::token::{is_token_account, token_program_bytes, token_program_id, unpack_token_account};
use vstd::prelude::*;
use vstd::utf8::decode_utf8;

verus! {

/// The shapes in which the host has handed over account updates.
#[derive(Clone, Copy, Debug, PartialEq, Eq, Structural)]
pub enum SchemaVersion {
    V0_0_1,
    V0_0_2,
    V0_0_3,
}

/// One mutation event: the state of an account after a change.
#[derive(Debug)]
pub struct AccountUpdate {
    pub pubkey: Address,
    pub owner: Address,
    pub lamports: u64,
    pub data: Vec<u8>,
    pub executable: bool,
    pub slot: u64,
    pub is_startup: bool,
    pub version: SchemaVersion,
}

/// Why an event is rejected as a whole.
#[derive(Clone, Copy, Debug, PartialEq, Eq)]
pub enum PluginError {
    /// The event has a shape that this filter does not understand.
    VersionUnsupported,
}

/// What becomes of the listing branch of an event.
#[derive(Debug)]
pub enum ListingDecision {
    /// The owner is no tracked program.
    NotWatched,
    /// The owner is a tracked program, but the payload is no listing.
    DecodeFailed(DecodeError),
    /// The row to write for the account.
    Upsert(Listing),
}

/// What one event asks of the store. The three parts are independent: any
/// of them may be due for the same event.
#[derive(Debug)]
pub struct Plan {
    /// The new balance of the account, where it is a tracked user.
    pub balance: Option<AssetChange>,
    /// The tracked user whose token holding changed, and the change.
    pub holding: Option<(Address, AssetChange)>,
    /// The listing branch.
    pub listing: ListingDecision,
}

/// Why an event changed nothing.
#[derive(Clone, Copy, Debug, PartialEq, Eq)]
pub enum SkipReason {
    /// No branch was due.
    NotWatched,
    /// Only the listing branch was due, and the payload is no listing.
    DecodeFailed,
    /// Every write that was due was refused by the store.
    WriteRefused,
}

/// How the processing of an event ended.
#[derive(Clone, Copy, Debug, PartialEq, Eq)]
pub enum Outcome {
    Skipped(SkipReason),
    Committed,
}

/// The result of ingesting one event.
#[derive(Debug)]
pub struct Ingested {
    pub outcome: Outcome,
    /// The events to publish, one for each write that succeeded, in the
    /// order of the writes.
    pub published: Vec<ChangeEvent>,
    /// How many writes the store refused.
    pub refused: usize,
}

/// The listing row that a payload holds.
pub open spec fn listing_of(payload: Seq<u8>) -> ListingView {
    let at = fixed_at(payload);
    ListingView {
        name: decode_utf8(name_bytes(payload)),
        seed: le_value(field(payload, at, 8)) as u64,
        mint: base58_text(field(payload, at + 8, 32)),
        funding_goal: le_value(field(payload, at + 40, 8)) as u64,
        pool_mint_supply: le_value(field(payload, at + 48, 16)) as u128,
        funding_raised: le_value(field(payload, at + 64, 8)) as u64,
        available_tokens: le_value(field(payload, at + 72, 16)) as u128,
        base_price: price_bits(payload) as u64,
        tokens_sold: le_value(field(payload, at + 96, 16)) as u128,
        bump: payload[at + 112],
        vault_bump: payload[at + 113],
        mint_bump: payload[at + 114],
    }
}

/// Whether the balance branch is due: the account is a tracked user.
pub open spec fn balance_due(watch: WatchConfig, event: AccountUpdate) -> bool {
    spec_contains(watch.users@, event.pubkey@)
}

/// Whether the holding branch is due: the account belongs to the token
/// program, its data is a token account, and its holder is a tracked user.
pub open spec fn holding_due(watch: WatchConfig, event: AccountUpdate) -> bool {
    &&& event.owner@ == token_program_bytes()
    &&& is_token_account(event.data@)
    &&& spec_contains(watch.users@, field(event.data@, 32, 32))
}

/// Whether the listing branch is due: the account belongs to a tracked
/// program.
pub open spec fn listing_due(watch: WatchConfig, event: AccountUpdate) -> bool {
    spec_contains(watch.programs@, event.owner@)
}

/// The change of the balance branch, where it is due.
pub open spec fn spec_balance(watch: WatchConfig, event: AccountUpdate) -> Option<AssetChange> {
    if balance_due(watch, event) {
        Some(AssetChange::Balance { lamports: event.lamports })
    } else {
        None
    }
}

/// The holder that the data of a token account names.
pub open spec fn holder_of(data: Seq<u8>) -> Address {
    address_of(field(data, 32, 32))
}

/// The mint that the data of a token account names.
pub open spec fn mint_of(data: Seq<u8>) -> Address {
    address_of(field(data, 0, 32))
}

/// The change that the data of a token account stands for.
pub open spec fn holding_of(data: Seq<u8>) -> AssetChange {
    AssetChange::Holding {
        mint: mint_of(data),
        amount: le_value(field(data, 64, 8)) as u64,
    }
}

/// The holder and the change of the holding branch, where it is due.
pub open spec fn spec_holding(watch: WatchConfig, event: AccountUpdate) -> Option<
    (Address, AssetChange),
> {
    if holding_due(watch, event) {
        Some((holder_of(event.data@), holding_of(event.data@)))
    } else {
        None
    }
}

/// Whether `plan` is what `event` asks for under `watch`.
pub open spec fn planned(watch: WatchConfig, event: AccountUpdate, plan: Plan) -> bool {
    &&& plan.balance == spec_balance(watch, event)
    &&& plan.holding == spec_holding(watch, event)
    &&& match plan.listing {
        ListingDecision::NotWatched => !listing_due(watch, event),
        ListingDecision::DecodeFailed(e) => listing_due(watch, event) && decode_error(
            event.data@,
        ) == Some(e),
        ListingDecision::Upsert(listing) => listing_due(watch, event) && decode_error(
            event.data@,
        ) is None && listing@ == listing_of(event.data@),
    }
}

/// The store and the events published after the balance branch.
pub open spec fn after_balance(watch: WatchConfig, event: AccountUpdate, store: StoreView) -> (
    StoreView,
    Seq<ChangeEvent>,
) {
    if balance_due(watch, event) && !is_stale(store, event.pubkey@, event.slot) {
        (
            spec_append(
                store,
                event.pubkey@,
                AssetChange::Balance { lamports: event.lamports },
                event.slot,
            ),
            seq![ChangeEvent { subject: event.pubkey, kind: ChangeKind::UserAssetsChanged }],
        )
    } else {
        (store, Seq::empty())
    }
}

/// The store and the events published after the holding branch.
pub open spec fn after_holding(
    watch: WatchConfig,
    event: AccountUpdate,
    before: (StoreView, Seq<ChangeEvent>),
) -> (StoreView, Seq<ChangeEvent>) {
    let holder = holder_of(event.data@);
    if holding_due(watch, event) && !is_stale(before.0, holder@, event.slot) {
        (
            spec_append(
                before.0,
                holder@,
                holding_of(event.data@),
                event.slot,
            ),
            before.1.push(ChangeEvent { subject: holder, kind: ChangeKind::UserAssetsChanged }),
        )
    } else {
        before
    }
}

/// The store and the events published after the listing branch.
pub open spec fn after_listing(
    watch: WatchConfig,
    event: AccountUpdate,
    before: (StoreView, Seq<ChangeEvent>),
    now: u64,
) -> (StoreView, Seq<ChangeEvent>) {
    if listing_due(watch, event) && decode_error(event.data@) is None {
        (
            spec_upsert(before.0, event.pubkey@, listing_of(event.data@), now),
            before.1.push(ChangeEvent { subject: event.pubkey, kind: ChangeKind::ListingChanged }),
        )
    } else {
        before
    }
}

/// The store after an event of the understood shape, and the events to
/// publish: the three branches in turn, each on what the one before left.
pub open spec fn spec_ingest(watch: WatchConfig, event: AccountUpdate, store: StoreView, now: u64)
    -> (StoreView, Seq<ChangeEvent>) {
    after_listing(
        watch,
        event,
        after_holding(watch, event, after_balance(watch, event, store)),
        now,
    )
}

/// How many writes the store refuses for an event.
pub open spec fn refusals(watch: WatchConfig, event: AccountUpdate, store: StoreView) -> nat {
    let first: nat = if balance_due(watch, event) && is_stale(store, event.pubkey@, event.slot) {
        1
    } else {
        0
    };
    let second: nat = if holding_due(watch, event) && is_stale(
        after_balance(watch, event, store).0,
        holder_of(event.data@)@,
        event.slot,
    ) {
        1
    } else {
        0
    };
    first + second
}

/// How the processing of an event of the understood shape ends.
pub open spec fn spec_outcome(watch: WatchConfig, event: AccountUpdate, store: StoreView, now: u64)
    -> Outcome {
    if spec_ingest(watch, event, store, now).1.len() > 0 {
        Outcome::Committed
    } else if refusals(watch, event, store) > 0 {
        Outcome::Skipped(SkipReason::WriteRefused)
    } else if listing_due(watch, event) {
        Outcome::Skipped(SkipReason::DecodeFailed)
    } else {
        Outcome::Skipped(SkipReason::NotWatched)
    }
}

/// A decoded record becomes the row that its payload holds.
pub proof fn lemma_listing_of(payload: Seq<u8>, anchor: AnchorListing)
    requires
        decoded(payload, anchor),
    ensures
        spec_from_anchor(anchor) == listing_of(payload),
{
}

/// The ingestion filter: the watch-lists, fixed when the plugin is loaded.
#[derive(Debug)]
pub struct Heimdall {
    pub watch: WatchConfig,
}

impl Heimdall {
    /// The name under which the host knows the plugin.
    pub fn name(&self) -> (name: &'static str)
        ensures
            name@ == "Heimdall"@,
    {
        "Heimdall"
    }

    /// The filter for the watch-lists of `config`.
    pub fn on_load(config: &Config) -> (r: Result<Heimdall, ConfigError>)
        ensures
            match r {
                Ok(filter) => loaded(*config, Ok(filter.watch)),
                Err(e) => loaded(*config, Err(e)),
            },
    {
        match WatchConfig::from_config(config) {
            Ok(watch) => Ok(Heimdall { watch }),
            Err(e) => Err(e),
        }
    }

    /// What `event` asks of the store. An event of a shape other than the
    /// one understood is rejected as a whole.
    pub fn update_account(&self, event: &AccountUpdate) -> (r: Result<Plan, PluginError>)
        ensures
            match r {
                Ok(plan) => event.version == SchemaVersion::V0_0_3 && planned(
                    self.watch,
                    *event,
                    plan,
                ),
                Err(PluginError::VersionUnsupported) => event.version != SchemaVersion::V0_0_3,
            },
    {
        match event.version {
            SchemaVersion::V0_0_3 => {},
            _ => {
                return Err(PluginError::VersionUnsupported);
            },
        }
        let balance = self.update_user_sol_balance(event);
        let holding = self.update_user_token_holding(event);
        let listing = self.update_listing(event);
        Ok(Plan { balance, holding, listing })
    }

    /// The balance branch: the new balance, where the account is a tracked
    /// user.
    pub fn update_user_sol_balance(&self, event: &AccountUpdate) -> (r: Option<AssetChange>)
        ensures
            r == spec_balance(self.watch, *event),
    {
        if contains(&self.watch.users, &event.pubkey) {
            Some(AssetChange::Balance { lamports: event.lamports })
        } else {
            None
        }
    }

    /// The holding branch: the holder and the new holding, where the account
    /// is a token account of a tracked user.
    pub fn update_user_token_holding(&self, event: &AccountUpdate) -> (r: Option<
        (Address, AssetChange),
    >)
        ensures
            r == spec_holding(self.watch, *event),
    {
        if !event.owner.same(&token_program_id()) {
            return None;
        }
        match unpack_token_account(event.data.as_slice()) {
            Some(account) => {
                if contains(&self.watch.users, &account.owner) {
                    proof {
                        lemma_address_of(account.owner);
                        lemma_address_of(account.mint);
                    }
                    Some(
                        (
                            account.owner,
                            AssetChange::Holding { mint: account.mint, amount: account.amount },
                        ),
                    )
                } else {
                    None
                }
            },
            None => None,
        }
    }

    /// The listing branch: the row to write, where the account belongs to a
    /// tracked program and its payload is a listing.
    pub fn update_listing(&self, event: &AccountUpdate) -> (r: ListingDecision)
        ensures
            match r {
                ListingDecision::NotWatched => !listing_due(self.watch, *event),
                ListingDecision::DecodeFailed(e) => listing_due(self.watch, *event)
                    && decode_error(event.data@) == Some(e),
                ListingDecision::Upsert(listing) => listing_due(self.watch, *event)
                    && decode_error(event.data@) is None && listing@ == listing_of(event.data@),
            },
    {
        if !contains(&self.watch.programs, &event.owner) {
            return ListingDecision::NotWatched;
        }
        match decode_listing(event.data.as_slice()) {
            Ok(anchor) => {
                proof {
                    lemma_listing_of(event.data@, anchor);
                }
                ListingDecision::Upsert(Listing::from_anchor(anchor))
            },
            Err(e) => ListingDecision::DecodeFailed(e),
        }
    }

    /// Ingests one event into the store: every branch that is due writes
    /// through the store, and every write that succeeds yields the event to
    /// publish for it. A write that the store refuses is counted and does
    /// not stop the other branches. An event of a shape that is not
    /// understood is rejected and changes nothing.
    pub fn ingest(&self, store: &mut ProjectionStore, event: &AccountUpdate, now: u64) -> (r:
        Result<Ingested, PluginError>)
        requires
            old(store).wf(),
        ensures
            final(store).wf(),
            match r {
                Ok(done) => {
                    &&& event.version == SchemaVersion::V0_0_3
                    &&& final(store)@ == spec_ingest(self.watch, *event, old(store)@, now).0
                    &&& done.published@ == spec_ingest(self.watch, *event, old(store)@, now).1
                    &&& done.refused == refusals(self.watch, *event, old(store)@)
                    &&& done.outcome == spec_outcome(self.watch, *event, old(store)@, now)
                },
                Err(PluginError::VersionUnsupported) => {
                    &&& event.version != SchemaVersion::V0_0_3
                    &&& final(store)@ == old(store)@
                },
            },
    {
        let plan = match self.update_account(event) {
            Ok(plan) => plan,
            Err(e) => {
                return Err(e);
            },
        };
        let mut published: Vec<ChangeEvent> = Vec::new();
        let mut refused: usize = 0;
        if let Some(change) = plan.balance {
            match store.append_user_snapshot(&event.pubkey, &change, event.slot) {
                Ok(_) => {
                    published.push(
                        ChangeEvent { subject: event.pubkey, kind: ChangeKind::UserAssetsChanged },
                    );
                },
                Err(_) => {
                    refused = refused + 1;
                },
            }
        }
        assert(store@ == after_balance(self.watch, *event, old(store)@).0);
        assert(published@ =~= after_balance(self.watch, *event, old(store)@).1);
        let ghost first = after_balance(self.watch, *event, old(store)@);
        if let Some((holder, change)) = plan.holding {
            match store.append_user_snapshot(&holder, &change, event.slot) {
                Ok(_) => {
                    published.push(
                        ChangeEvent { subject: holder, kind: ChangeKind::UserAssetsChanged },
                    );
                },
                Err(_) => {
                    refused = refused + 1;
                },
            }
        }
        let ghost second = after_holding(self.watch, *event, first);
        assert(store@ == second.0);
        assert(published@ =~= second.1);
        let undecoded = match plan.listing {
            ListingDecision::Upsert(listing) => {
                let _ = store.upsert_listing(&event.pubkey, listing, now);
                published.push(
                    ChangeEvent { subject: event.pubkey, kind: ChangeKind::ListingChanged },
                );
                false
            },
            ListingDecision::DecodeFailed(_) => true,
            ListingDecision::NotWatched => false,
        };
        assert(store@ == after_listing(self.watch, *event, second, now).0);
        assert(published@ =~= after_listing(self.watch, *event, second, now).1);
        let outcome = if published.len() > 0 {
            Outcome::Committed
        } else if refused > 0 {
            Outcome::Skipped(SkipReason::WriteRefused)
        } else if undecoded {
            Outcome::Skipped(SkipReason::DecodeFailed)
        } else {
            Outcome::Skipped(SkipReason::NotWatched)
        };
        Ok(Ingested { outcome, published, refused })
    }
}

/// An event of the understood shape whose account belongs to a tracked
/// program and whose payload is a listing leaves the row of the account in
/// the store with the fields of the payload, and its notice is the last
/// event published.
pub proof fn lemma_listing_is_committed(
    watch: WatchConfig,
    event: AccountUpdate,
    store: StoreView,
    now: u64,
)
    requires
        listing_due(watch, event),
        decode_error(event.data@) is None,
    ensures
        ({
            let after = spec_ingest(watch, event, store, now);
            &&& after.0.listings.contains_key(event.pubkey@)
            &&& after.0.listings[event.pubkey@].0 == listing_of(event.data@)
            &&& after.1.len() > 0
            &&& after.1.last() == ChangeEvent {
                subject: event.pubkey,
                kind: ChangeKind::ListingChanged,
            }
            &&& spec_outcome(watch, event, store, now) == Outcome::Committed
        }),
{
}

/// An event for which no branch is due leaves the store as it was and
/// publishes nothing.
pub proof fn lemma_unwatched_changes_nothing(
    watch: WatchConfig,
    event: AccountUpdate,
    store: StoreView,
    now: u64,
)
    requires
        !balance_due(watch, event),
        !holding_due(watch, event),
        !listing_due(watch, event),
    ensures
        spec_ingest(watch, event, store, now) == (store, Seq::<ChangeEvent>::empty()),
        spec_outcome(watch, event, store, now) == Outcome::Skipped(SkipReason::NotWatched),
{
}

/// A payload that is no listing writes no row: the listings of the store
/// stay as they were.
pub proof fn lemma_undecoded_writes_no_row(
    watch: WatchConfig,
    event: AccountUpdate,
    store: StoreView,
    now: u64,
)
    requires
        decode_error(event.data@) is Some,
    ensures
        spec_ingest(watch, event, store, now).0.listings == store.listings,
{
}

} // verus!
