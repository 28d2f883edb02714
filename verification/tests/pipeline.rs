use heimdall::address::Address;
use heimdall::bus::{ChangeEvent, ChangeKind};
use heimdall::codec::DecodeError;
use heimdall::config::{Config, ConfigError, WatchConfig};
use heimdall::fanout::{Dispatched, FanoutDispatcher, WireMessage, DEFAULT_QUEUE_CAPACITY};
use heimdall::filter::{
    AccountUpdate, Heimdall, ListingDecision, Outcome, PluginError, SchemaVersion, SkipReason,
};
use heimdall::listing::{encode_wire_listing, Listing};
use heimdall::snapshot::AssetChange;
use heimdall::store::{ProjectionStore, StoreError};
use heimdall::token::{token_program_id, unpack_token_account, TOKEN_ACCOUNT_LEN};
use spl_token::solana_program::program_option::COption;
use spl_token::solana_program::program_pack::Pack;
use spl_token::solana_program::pubkey::Pubkey;

const PROGRAM: [u8; 32] = [40u8; 32];
const USER: [u8; 32] = [50u8; 32];
const OTHER_USER: [u8; 32] = [51u8; 32];
const ACCOUNT: [u8; 32] = [60u8; 32];
const MINT: [u8; 32] = [70u8; 32];

fn filter() -> Heimdall {
    Heimdall {
        watch: WatchConfig {
            database_endpoint: String::from("db"),
            programs: vec![Address::new(PROGRAM)],
            users: vec![Address::new(USER), Address::new(OTHER_USER)],
        },
    }
}

fn listing_payload(name: &str, supply: u128) -> Vec<u8> {
    let mut data = vec![1u8, 2, 3, 4, 5, 6, 7, 8];
    data.extend_from_slice(&(name.len() as u32).to_le_bytes());
    data.extend_from_slice(name.as_bytes());
    data.extend_from_slice(&7u64.to_le_bytes());
    data.extend_from_slice(&MINT);
    data.extend_from_slice(&1_000u64.to_le_bytes());
    data.extend_from_slice(&supply.to_le_bytes());
    data.extend_from_slice(&250u64.to_le_bytes());
    data.extend_from_slice(&900u128.to_le_bytes());
    data.extend_from_slice(&0.5f64.to_bits().to_le_bytes());
    data.extend_from_slice(&100u128.to_le_bytes());
    data.extend_from_slice(&[255, 254, 253]);
    data
}

#[allow(deprecated)]
fn token_account(owner: [u8; 32], mint: [u8; 32], amount: u64) -> Vec<u8> {
    let account = spl_token::state::Account {
        mint: Pubkey::new_from_array(mint),
        owner: Pubkey::new_from_array(owner),
        amount,
        delegate: COption::Some(Pubkey::new_from_array([3u8; 32])),
        state: spl_token::state::AccountState::Initialized,
        is_native: COption::None,
        delegated_amount: 9,
        close_authority: COption::None,
    };
    let mut data = vec![0u8; spl_token::state::Account::LEN];
    spl_token::state::Account::pack(account, &mut data).unwrap();
    data
}

fn update(pubkey: [u8; 32], owner: [u8; 32], lamports: u64, data: Vec<u8>, slot: u64)
    -> AccountUpdate {
    AccountUpdate {
        pubkey: Address::new(pubkey),
        owner: Address::new(owner),
        lamports,
        data,
        executable: false,
        slot,
        is_startup: false,
        version: SchemaVersion::V0_0_3,
    }
}

fn first_listing(dispatcher: &mut FanoutDispatcher, id: u64) -> heimdall::listing::WireListing {
    match dispatcher.poll(id) {
        Some(WireMessage::Listing(listing)) => listing,
        other => panic!("expected a listing, got {:?}", other),
    }
}

#[test]
fn token_program_id_is_the_token_program() {
    assert_eq!(token_program_id().bytes, spl_token::ID.to_bytes());
    assert_eq!(token_program_id().to_text(), "TokenkegQfeZyiNwAJbNbGKPFXCWuBvf9Ss623VQ5DA");
}

#[test]
fn unpacks_a_token_account() {
    let data = token_account(USER, MINT, 1_234_567_890_123);
    assert_eq!(data.len(), TOKEN_ACCOUNT_LEN);
    let account = unpack_token_account(&data).unwrap();
    assert_eq!(account.owner.bytes, USER);
    assert_eq!(account.mint.bytes, MINT);
    assert_eq!(account.amount, 1_234_567_890_123);
}

#[test]
fn refuses_what_is_no_token_account() {
    let good = token_account(USER, MINT, 5);
    assert!(unpack_token_account(&good[..164]).is_none());
    let mut long = good.clone();
    long.push(0);
    assert!(unpack_token_account(&long).is_none());
    let mut uninitialised = good.clone();
    uninitialised[108] = 0;
    assert!(unpack_token_account(&uninitialised).is_none());
    let mut bad_state = good.clone();
    bad_state[108] = 3;
    assert!(unpack_token_account(&bad_state).is_none());
    let mut frozen = good.clone();
    frozen[108] = 2;
    assert!(unpack_token_account(&frozen).is_some());
    for at in [72usize, 109, 129] {
        let mut bad_tag = good.clone();
        bad_tag[at] = 2;
        assert!(unpack_token_account(&bad_tag).is_none());
        let mut bad_high = good.clone();
        bad_high[at + 3] = 1;
        assert!(unpack_token_account(&bad_high).is_none());
    }
    assert!(unpack_token_account(&[]).is_none());
}

#[test]
fn plugin_name() {
    assert_eq!(filter().name(), "Heimdall");
}

#[test]
fn on_load_reads_the_watch_lists() {
    let config = Config {
        database_url: String::from("db"),
        programs: Some(vec![Address::new(PROGRAM).to_text()]),
        tracked_users: None,
    };
    let loaded = Heimdall::on_load(&config).unwrap();
    assert_eq!(loaded.watch.programs[0].bytes, PROGRAM);
    assert!(loaded.watch.users.is_empty());
    let broken = Config {
        database_url: String::from("db"),
        programs: None,
        tracked_users: Some(vec![String::from("?")]),
    };
    assert!(matches!(
        Heimdall::on_load(&broken),
        Err(ConfigError::InvalidUser { index: 0, .. })
    ));
}

#[test]
fn unsupported_versions_are_rejected() {
    let filter = filter();
    let mut store = ProjectionStore::new();
    for version in [SchemaVersion::V0_0_1, SchemaVersion::V0_0_2] {
        let mut event = update(USER, PROGRAM, 5, listing_payload("x", 1), 1);
        event.version = version;
        assert_eq!(filter.update_account(&event).unwrap_err(), PluginError::VersionUnsupported);
        assert_eq!(
            filter.ingest(&mut store, &event, 1).unwrap_err(),
            PluginError::VersionUnsupported
        );
    }
    assert!(store.fetch_user_assets(&Address::new(USER)).is_none());
    assert!(store.fetch_listing(&Address::new(USER)).is_none());
}

#[test]
fn unwatched_account_is_skipped() {
    let filter = filter();
    let mut store = ProjectionStore::new();
    let event = update(ACCOUNT, [1u8; 32], 5, listing_payload("x", 1), 1);
    let plan = filter.update_account(&event).unwrap();
    assert!(plan.balance.is_none());
    assert!(plan.holding.is_none());
    assert!(matches!(plan.listing, ListingDecision::NotWatched));
    let done = filter.ingest(&mut store, &event, 1).unwrap();
    assert_eq!(done.outcome, Outcome::Skipped(SkipReason::NotWatched));
    assert!(done.published.is_empty());
    assert_eq!(done.refused, 0);
}

#[test]
fn undecodable_payload_is_skipped_without_a_write() {
    let filter = filter();
    let mut store = ProjectionStore::new();
    let mut data = listing_payload("x", 1);
    data.pop();
    let event = update(ACCOUNT, PROGRAM, 5, data, 1);
    let plan = filter.update_account(&event).unwrap();
    assert!(matches!(
        plan.listing,
        ListingDecision::DecodeFailed(DecodeError::UnexpectedEnd)
    ));
    let done = filter.ingest(&mut store, &event, 1).unwrap();
    assert_eq!(done.outcome, Outcome::Skipped(SkipReason::DecodeFailed));
    assert!(done.published.is_empty());
    assert!(store.fetch_listing(&Address::new(ACCOUNT)).is_none());
}

#[test]
fn tracked_user_gets_a_balance_snapshot() {
    let filter = filter();
    let mut store = ProjectionStore::new();
    let event = update(USER, [1u8; 32], 2_500_000_000, Vec::new(), 10);
    let plan = filter.update_account(&event).unwrap();
    assert!(matches!(plan.balance, Some(AssetChange::Balance { lamports: 2_500_000_000 })));
    let done = filter.ingest(&mut store, &event, 1).unwrap();
    assert_eq!(done.outcome, Outcome::Committed);
    assert_eq!(done.published.len(), 1);
    assert_eq!(done.published[0].subject.bytes, USER);
    assert_eq!(done.published[0].kind, ChangeKind::UserAssetsChanged);
    let current = store.fetch_user_assets(&Address::new(USER)).unwrap();
    assert_eq!(current.lamports, 2_500_000_000);
    assert!(current.token_holdings.is_empty());
    assert_eq!(current.nft_holdings, "[]");
    assert_eq!(current.sequence, 10);
}

#[test]
fn token_account_of_tracked_user_updates_the_holding() {
    let filter = filter();
    let mut store = ProjectionStore::new();
    let token = token_program_id().bytes;
    let event = update(ACCOUNT, token, 1, token_account(USER, MINT, 10), 3);
    let plan = filter.update_account(&event).unwrap();
    match plan.holding {
        Some((owner, AssetChange::Holding { mint, amount })) => {
            assert_eq!(owner.bytes, USER);
            assert_eq!(mint.bytes, MINT);
            assert_eq!(amount, 10);
        },
        other => panic!("unexpected {:?}", other),
    }
    let done = filter.ingest(&mut store, &event, 1).unwrap();
    assert_eq!(done.outcome, Outcome::Committed);
    assert_eq!(done.published[0].subject.bytes, USER);
    let balance = update(USER, [1u8; 32], 1_000_000_000, Vec::new(), 4);
    filter.ingest(&mut store, &balance, 1).unwrap();
    let current = store.fetch_user_assets(&Address::new(USER)).unwrap();
    assert_eq!(current.lamports, 1_000_000_000);
    assert_eq!(current.token_holdings.len(), 1);
    assert_eq!(current.token_holdings[0].amount, 10);
    let emptied = update(ACCOUNT, token, 1, token_account(USER, MINT, 0), 5);
    filter.ingest(&mut store, &emptied, 1).unwrap();
    let after = store.fetch_user_assets(&Address::new(USER)).unwrap();
    assert_eq!(after.lamports, 1_000_000_000);
    assert!(after.token_holdings.is_empty());
}

#[test]
fn token_account_of_a_stranger_is_not_planned() {
    let filter = filter();
    let token = token_program_id().bytes;
    let stranger = update(ACCOUNT, token, 1, token_account([9u8; 32], MINT, 10), 3);
    assert!(filter.update_account(&stranger).unwrap().holding.is_none());
    let wrong_owner = update(ACCOUNT, [1u8; 32], 1, token_account(USER, MINT, 10), 3);
    assert!(filter.update_account(&wrong_owner).unwrap().holding.is_none());
    let garbage = update(ACCOUNT, token, 1, vec![1u8; 165], 3);
    assert!(filter.update_account(&garbage).unwrap().holding.is_none());
}

#[test]
fn all_branches_may_fire_for_one_event() {
    let mut filter = filter();
    filter.watch.programs.push(token_program_id());
    let mut store = ProjectionStore::new();
    let token = token_program_id().bytes;
    let event = update(USER, token, 42, token_account(OTHER_USER, MINT, 6), 8);
    let done = filter.ingest(&mut store, &event, 1).unwrap();
    assert_eq!(done.outcome, Outcome::Committed);
    assert_eq!(done.published.len(), 2);
    assert_eq!(done.published[0].subject.bytes, USER);
    assert_eq!(done.published[1].subject.bytes, OTHER_USER);
    assert_eq!(store.fetch_user_assets(&Address::new(USER)).unwrap().lamports, 42);
    let other = store.fetch_user_assets(&Address::new(OTHER_USER)).unwrap();
    assert_eq!(other.token_holdings[0].amount, 6);
    assert!(store.fetch_listing(&Address::new(USER)).is_none());
}

#[test]
fn stale_change_is_refused_and_not_published() {
    let filter = filter();
    let mut store = ProjectionStore::new();
    filter.ingest(&mut store, &update(USER, [1u8; 32], 100, Vec::new(), 10), 1).unwrap();
    let late = filter.ingest(&mut store, &update(USER, [1u8; 32], 5, Vec::new(), 9), 1).unwrap();
    assert_eq!(late.outcome, Outcome::Skipped(SkipReason::WriteRefused));
    assert!(late.published.is_empty());
    assert_eq!(late.refused, 1);
    assert_eq!(store.fetch_user_assets(&Address::new(USER)).unwrap().lamports, 100);
    let same_slot =
        filter.ingest(&mut store, &update(USER, [1u8; 32], 7, Vec::new(), 10), 1).unwrap();
    assert_eq!(same_slot.outcome, Outcome::Committed);
    assert_eq!(store.fetch_user_assets(&Address::new(USER)).unwrap().lamports, 7);
    let change = AssetChange::Balance { lamports: 1 };
    assert_eq!(
        store.append_user_snapshot(&Address::new(USER), &change, 3).unwrap_err(),
        StoreError::StaleSequence
    );
}

#[test]
fn upsert_twice_leaves_one_row() {
    let filter = filter();
    let mut store = ProjectionStore::new();
    let event = update(ACCOUNT, PROGRAM, 5, listing_payload("Alpha", 77), 1);
    let listing = match filter.update_listing(&event) {
        ListingDecision::Upsert(listing) => listing,
        other => panic!("unexpected {:?}", other),
    };
    let account = Address::new(ACCOUNT);
    let first = store.upsert_listing(&account, listing.duplicate(), 100);
    let second = store.upsert_listing(&account, listing, 90);
    assert_eq!(first, 100);
    assert_eq!(second, 100);
    let row = store.fetch_listing(&account).unwrap();
    assert_eq!(row.updated_at, 100);
    assert_eq!(row.listing.name, "Alpha");
    assert_eq!(row.listing.pool_mint_supply, 77);
    let later = row.listing.duplicate();
    assert_eq!(store.upsert_listing(&account, later, 120), 120);
    assert!(store.fetch_listing(&Address::new(USER)).is_none());
}

#[test]
fn upsert_replaces_every_column() {
    let filter = filter();
    let mut store = ProjectionStore::new();
    let account = Address::new(ACCOUNT);
    for (name, supply, now) in [("Alpha", 1u128, 5u64), ("Beta", 2, 6)] {
        let event = update(ACCOUNT, PROGRAM, 5, listing_payload(name, supply), now);
        assert_eq!(filter.ingest(&mut store, &event, now).unwrap().outcome, Outcome::Committed);
    }
    let row = store.fetch_listing(&account).unwrap();
    assert_eq!(row.listing.name, "Beta");
    assert_eq!(row.listing.pool_mint_supply, 2);
    assert_eq!(row.updated_at, 6);
}

#[test]
fn end_to_end_listing_reaches_every_subscriber() {
    let filter = filter();
    let mut store = ProjectionStore::new();
    let mut dispatcher = FanoutDispatcher::new();
    let first = dispatcher.subscribe(DEFAULT_QUEUE_CAPACITY).unwrap();
    let second = dispatcher.subscribe(DEFAULT_QUEUE_CAPACITY).unwrap();
    assert_eq!(dispatcher.subscriber_count(), 2);
    let mut events: Vec<ChangeEvent> = Vec::new();
    for (name, now) in [("Alpha", 11u64), ("Beta", 12)] {
        let event = update(ACCOUNT, PROGRAM, 5, listing_payload(name, u128::MAX), now);
        let done = filter.ingest(&mut store, &event, now).unwrap();
        assert_eq!(done.outcome, Outcome::Committed);
        assert_eq!(done.published.len(), 1);
        assert_eq!(done.published[0].kind, ChangeKind::ListingChanged);
        let through_the_bus = ChangeEvent::from_payload(&done.published[0].payload()).unwrap();
        assert_eq!(through_the_bus.subject.bytes, ACCOUNT);
        events.push(through_the_bus);
        assert_eq!(dispatcher.dispatch(&store, &events[events.len() - 1]), Dispatched::Delivered);
    }
    for id in [first, second] {
        let alpha = first_listing(&mut dispatcher, id);
        assert_eq!(alpha.account, Address::new(ACCOUNT).to_text());
        assert_eq!(alpha.name, "Alpha");
        assert_eq!(alpha.seed, 7);
        assert_eq!(alpha.mint, Address::new(MINT).to_text());
        assert_eq!(alpha.funding_goal, 1_000);
        assert_eq!(alpha.pool_mint_supply, "340282366920938463463374607431768211455");
        assert_eq!(alpha.funding_raised, 250);
        assert_eq!(alpha.available_tokens, "900");
        assert_eq!(f64::from_bits(alpha.base_price), 0.5);
        assert_eq!(alpha.tokens_sold, "100");
        assert_eq!((alpha.bump, alpha.vault_bump, alpha.mint_bump), (255, 254, 253));
        assert_eq!(alpha.updated_at, "11");
        let beta = first_listing(&mut dispatcher, id);
        assert_eq!(beta.name, "Beta");
        assert_eq!(beta.updated_at, "12");
        assert!(dispatcher.poll(id).is_none());
    }
}

#[test]
fn user_assets_change_reaches_subscribers() {
    let filter = filter();
    let mut store = ProjectionStore::new();
    let mut dispatcher = FanoutDispatcher::new();
    let id = dispatcher.subscribe(4).unwrap();
    let done = filter
        .ingest(&mut store, &update(USER, [1u8; 32], 2_500_000_000, Vec::new(), 10), 1)
        .unwrap();
    assert_eq!(dispatcher.dispatch(&store, &done.published[0]), Dispatched::Delivered);
    match dispatcher.poll(id) {
        Some(WireMessage::UserAssets(assets)) => {
            assert_eq!(assets.address, Address::new(USER).to_text());
            assert_eq!(assets.sol_balance, "2.5");
            assert_eq!(assets.token_holdings, "[]");
            assert_eq!(assets.nft_holdings, "[]");
            assert_eq!(assets.updated_at, "10");
        },
        other => panic!("unexpected {:?}", other),
    }
}

#[test]
fn event_for_a_missing_subject_is_dropped() {
    let store = ProjectionStore::new();
    let mut dispatcher = FanoutDispatcher::new();
    let id = dispatcher.subscribe(4).unwrap();
    for kind in [ChangeKind::ListingChanged, ChangeKind::UserAssetsChanged] {
        let event = ChangeEvent { subject: Address::new(ACCOUNT), kind };
        assert_eq!(dispatcher.dispatch(&store, &event), Dispatched::Missing);
    }
    assert!(dispatcher.poll(id).is_none());
}

fn message(name: &str) -> WireMessage {
    let listing = Listing {
        name: String::from(name),
        seed: 1,
        mint: String::from("m"),
        funding_goal: 2,
        pool_mint_supply: 3,
        funding_raised: 4,
        available_tokens: 5,
        base_price: 6,
        tokens_sold: 7,
        bump: 8,
        vault_bump: 9,
        mint_bump: 10,
    };
    WireMessage::Listing(encode_wire_listing(&Address::new(ACCOUNT), &listing, "now"))
}

fn names(dispatcher: &mut FanoutDispatcher, id: u64) -> Vec<String> {
    let mut out = Vec::new();
    while let Some(WireMessage::Listing(listing)) = dispatcher.poll(id) {
        out.push(listing.name);
    }
    out
}

#[test]
fn stalled_subscriber_does_not_hold_up_a_healthy_one() {
    let mut dispatcher = FanoutDispatcher::new();
    let stalled = dispatcher.subscribe(2).unwrap();
    let healthy = dispatcher.subscribe(2).unwrap();
    let mut received = Vec::new();
    for name in ["a", "b", "c", "d", "e"] {
        dispatcher.broadcast(&message(name));
        received.extend(names(&mut dispatcher, healthy));
    }
    assert_eq!(received, vec!["a", "b", "c", "d", "e"]);
    assert_eq!(names(&mut dispatcher, stalled), vec!["d", "e"]);
}

#[test]
fn queue_of_no_length_loses_every_message() {
    let mut dispatcher = FanoutDispatcher::new();
    let deaf = dispatcher.subscribe(0).unwrap();
    let healthy = dispatcher.subscribe(1).unwrap();
    dispatcher.broadcast(&message("a"));
    dispatcher.broadcast(&message("b"));
    assert!(dispatcher.poll(deaf).is_none());
    assert_eq!(names(&mut dispatcher, healthy), vec!["b"]);
}

#[test]
fn subscribers_come_and_go_without_disturbing_others() {
    let mut dispatcher = FanoutDispatcher::new();
    let first = dispatcher.subscribe(8).unwrap();
    dispatcher.broadcast(&message("a"));
    let second = dispatcher.subscribe(8).unwrap();
    assert_ne!(first, second);
    dispatcher.broadcast(&message("b"));
    assert!(dispatcher.unsubscribe(first));
    assert!(!dispatcher.unsubscribe(first));
    assert_eq!(dispatcher.subscriber_count(), 1);
    dispatcher.broadcast(&message("c"));
    assert!(dispatcher.poll(first).is_none());
    assert_eq!(names(&mut dispatcher, second), vec!["b", "c"]);
    let third = dispatcher.subscribe(8).unwrap();
    assert_ne!(third, first);
    assert_ne!(third, second);
    assert!(dispatcher.poll(99).is_none());
    let copy = message("z").duplicate();
    assert!(matches!(copy, WireMessage::Listing(ref l) if l.name == "z"));
}
