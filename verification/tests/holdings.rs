use heimdall::address::Address;
use heimdall::assets::{encode_wire_user_assets, holdings_json, wire_user_assets_from_row};
use heimdall::holdings::{merge_token_holding, TokenHolding};
use heimdall::snapshot::{
    copy_holdings, next_snapshot, try_next_snapshot, AssetChange, SnapshotError,
    UserAssetSnapshot,
};

fn mint(n: u8) -> Address {
    Address::new([n; 32])
}

fn pairs(holdings: &Vec<TokenHolding>) -> Vec<(u8, u64)> {
    holdings.iter().map(|h| (h.mint.bytes[0], h.amount)).collect()
}

#[test]
fn merge_with_zero_amount_deletes() {
    let held = vec![TokenHolding { mint: mint(1), amount: 10 }];
    assert!(merge_token_holding(&held, &mint(1), 0).is_empty());
}

#[test]
fn merge_into_empty_inserts() {
    let merged = merge_token_holding(&Vec::new(), &mint(2), 5);
    assert_eq!(pairs(&merged), vec![(2, 5)]);
}

#[test]
fn merge_replaces_and_does_not_duplicate() {
    let held = vec![
        TokenHolding { mint: mint(1), amount: 10 },
        TokenHolding { mint: mint(2), amount: 5 },
    ];
    let merged = merge_token_holding(&held, &mint(1), 20);
    assert_eq!(pairs(&merged), vec![(2, 5), (1, 20)]);
}

#[test]
fn merge_is_idempotent() {
    let held = vec![
        TokenHolding { mint: mint(1), amount: 10 },
        TokenHolding { mint: mint(2), amount: 5 },
        TokenHolding { mint: mint(3), amount: 7 },
    ];
    let once = merge_token_holding(&held, &mint(2), 9);
    let twice = merge_token_holding(&once, &mint(2), 9);
    assert_eq!(pairs(&once), vec![(1, 10), (3, 7), (2, 9)]);
    assert_eq!(pairs(&twice), pairs(&once));
}

#[test]
fn merge_of_absent_mint_with_zero_changes_nothing() {
    let held = vec![TokenHolding { mint: mint(1), amount: 10 }];
    assert_eq!(pairs(&merge_token_holding(&held, &mint(9), 0)), vec![(1, 10)]);
}

#[test]
fn merge_removes_every_entry_of_the_mint() {
    let held = vec![
        TokenHolding { mint: mint(1), amount: 1 },
        TokenHolding { mint: mint(2), amount: 2 },
        TokenHolding { mint: mint(1), amount: 3 },
    ];
    assert_eq!(pairs(&merge_token_holding(&held, &mint(1), 4)), vec![(2, 2), (1, 4)]);
}

#[test]
fn balance_update_carries_holdings_forward() {
    let previous = UserAssetSnapshot {
        lamports: 1_000_000_000,
        token_holdings: vec![TokenHolding { mint: mint(1), amount: 10 }],
        nft_holdings: String::from("[]"),
        sequence: 4,
    };
    let next =
        next_snapshot(Some(&previous), &AssetChange::Balance { lamports: 2_000_000_000 }, 5);
    assert_eq!(next.lamports, 2_000_000_000);
    assert_eq!(pairs(&next.token_holdings), vec![(1, 10)]);
    assert_eq!(next.nft_holdings, "[]");
    assert_eq!(next.sequence, 5);
}

#[test]
fn holding_update_carries_balance_and_collectibles_forward() {
    let previous = UserAssetSnapshot {
        lamports: 77,
        token_holdings: vec![TokenHolding { mint: mint(1), amount: 10 }],
        nft_holdings: String::from("[{\"id\":1}]"),
        sequence: 4,
    };
    let change = AssetChange::Holding { mint: mint(2), amount: 3 };
    let next = next_snapshot(Some(&previous), &change, 9);
    assert_eq!(next.lamports, 77);
    assert_eq!(pairs(&next.token_holdings), vec![(1, 10), (2, 3)]);
    assert_eq!(next.nft_holdings, "[{\"id\":1}]");
    assert_eq!(next.sequence, 9);
}

#[test]
fn first_snapshot_starts_from_nothing() {
    let next = next_snapshot(None, &AssetChange::Holding { mint: mint(2), amount: 3 }, 1);
    assert_eq!(next.lamports, 0);
    assert_eq!(pairs(&next.token_holdings), vec![(2, 3)]);
    assert_eq!(next.nft_holdings, "[]");
    let balance = next_snapshot(None, &AssetChange::Balance { lamports: 12 }, 2);
    assert_eq!(balance.lamports, 12);
    assert!(balance.token_holdings.is_empty());
    assert_eq!(balance.nft_holdings, "[]");
}

#[test]
fn copies_are_equal() {
    let held = vec![
        TokenHolding { mint: mint(1), amount: 10 },
        TokenHolding { mint: mint(2), amount: 5 },
    ];
    assert_eq!(pairs(&copy_holdings(&held)), vec![(1, 10), (2, 5)]);
    let snapshot = UserAssetSnapshot {
        lamports: 3,
        token_holdings: held,
        nft_holdings: String::from("[1]"),
        sequence: 8,
    };
    let copy = snapshot.duplicate();
    assert_eq!(copy.lamports, 3);
    assert_eq!(pairs(&copy.token_holdings), vec![(1, 10), (2, 5)]);
    assert_eq!(copy.nft_holdings, "[1]");
    assert_eq!(copy.sequence, 8);
}

#[test]
fn holdings_json_is_an_array_of_objects() {
    assert_eq!(holdings_json(&Vec::new()), "[]");
    let one = vec![TokenHolding { mint: Address::new([0u8; 32]), amount: 10 }];
    assert_eq!(
        holdings_json(&one),
        "[{\"amount\":10,\"mint\":\"11111111111111111111111111111111\"}]"
    );
    let two = vec![
        TokenHolding { mint: Address::new([0u8; 32]), amount: 10 },
        TokenHolding { mint: Address::new([0u8; 32]), amount: u64::MAX },
    ];
    let text = holdings_json(&two);
    let parsed: serde_json::Value = serde_json::from_str(&text).unwrap();
    let items = parsed.as_array().unwrap();
    assert_eq!(items.len(), 2);
    assert_eq!(items[1].get("amount").unwrap().as_u64(), Some(u64::MAX));
    assert_eq!(
        items[0].get("mint").unwrap().as_str(),
        Some("11111111111111111111111111111111")
    );
}

#[test]
fn wire_user_assets_from_snapshot() {
    let snapshot = UserAssetSnapshot {
        lamports: 2_500_000_000,
        token_holdings: vec![TokenHolding { mint: Address::new([0u8; 32]), amount: 10 }],
        nft_holdings: String::from("[{\"a\": 1}]"),
        sequence: 42,
    };
    let wire = encode_wire_user_assets(&Address::new([0u8; 32]), &snapshot);
    assert_eq!(wire.address, "11111111111111111111111111111111");
    assert_eq!(wire.sol_balance, "2.5");
    assert_eq!(
        wire.token_holdings,
        "[{\"amount\":10,\"mint\":\"11111111111111111111111111111111\"}]"
    );
    assert_eq!(wire.nft_holdings, "[{\"a\": 1}]");
    assert_eq!(wire.updated_at, "42");
    let copy = wire.duplicate();
    assert_eq!(copy.sol_balance, "2.5");
    assert_eq!(copy.updated_at, "42");
}

#[test]
fn wire_user_assets_from_row_is_verbatim() {
    let wire = wire_user_assets_from_row("addr", "1.25", "[ ]", "[1, 2]", "2024-01-01 00:00:00");
    assert_eq!(wire.address, "addr");
    assert_eq!(wire.sol_balance, "1.25");
    assert_eq!(wire.token_holdings, "[ ]");
    assert_eq!(wire.nft_holdings, "[1, 2]");
    assert_eq!(wire.updated_at, "2024-01-01 00:00:00");
}

#[test]
fn stale_change_follows_no_snapshot() {
    let previous = UserAssetSnapshot {
        lamports: 1,
        token_holdings: Vec::new(),
        nft_holdings: String::from("[]"),
        sequence: 10,
    };
    let change = AssetChange::Balance { lamports: 2 };
    assert_eq!(
        try_next_snapshot(Some(&previous), &change, 9).unwrap_err(),
        SnapshotError::StaleSequence
    );
    assert_eq!(try_next_snapshot(Some(&previous), &change, 10).unwrap().lamports, 2);
    assert_eq!(try_next_snapshot(Some(&previous), &change, 11).unwrap().sequence, 11);
    assert_eq!(try_next_snapshot(None, &change, 0).unwrap().lamports, 2);
}
