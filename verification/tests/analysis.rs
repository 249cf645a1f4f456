use mempool_watch::analyzer::{
    analyze, pool_balance_slot, require_trace, AccountDiff, AnalysisError, SlotChange, SlotEntry,
    StateDiff,
};
use mempool_watch::events::Transaction;
use mempool_watch::registry::{Pool, PoolInfo, PoolRegistry};
use mempool_watch::words::{Address, Word};

fn addr(tag: u8) -> Address {
    Address { bytes: vec![tag; 20] }
}

fn word_of(v: u128) -> Word {
    let mut bytes = vec![0u8; 32];
    let be = v.to_be_bytes();
    bytes[16..].copy_from_slice(&be);
    Word { bytes }
}

fn pool_v3(address: Address, token_a: Address, token_b: Address) -> Pool {
    Pool::UniswapV3(PoolInfo { address, token_a, token_b })
}

fn tx() -> Transaction {
    Transaction { hash: Word { bytes: vec![0x11; 32] }, max_fee_per_gas: Some(200) }
}

/// A diff touching the given addresses with empty storage, plus the
/// watched token's account with the given slot entries.
fn diff_touching(
    touched: Vec<Address>,
    watched: &Address,
    slot_entries: Vec<(Word, SlotChange)>,
) -> StateDiff {
    let mut accounts: Vec<AccountDiff> = touched
        .into_iter()
        .map(|address| AccountDiff { address, storage: Vec::new() })
        .collect();
    accounts.push(AccountDiff {
        address: Address { bytes: watched.bytes.clone() },
        storage: slot_entries
            .into_iter()
            .map(|(slot, change)| SlotEntry { slot, change })
            .collect(),
    });
    StateDiff { accounts }
}

#[test]
fn registry_replaces_pool_with_same_address() {
    let mut reg = PoolRegistry::new();
    reg.insert(pool_v3(addr(1), addr(2), addr(3)));
    reg.insert(pool_v3(addr(1), addr(4), addr(5)));
    let p = reg.get(&addr(1)).expect("pool must be present");
    match p {
        Pool::UniswapV3(info) => {
            assert_eq!(info.token_a.bytes, addr(4).bytes);
            assert_eq!(info.token_b.bytes, addr(5).bytes);
        }
        Pool::UniswapV2(_) => panic!("wrong variant"),
    }
    assert!(reg.get(&addr(9)).is_none());
}

#[test]
fn registry_from_pools_holds_each_pool() {
    let reg = PoolRegistry::from_pools(vec![
        pool_v3(addr(1), addr(2), addr(3)),
        pool_v3(addr(4), addr(5), addr(6)),
    ]);
    assert!(reg.get(&addr(1)).is_some());
    assert!(reg.get(&addr(4)).is_some());
    assert!(reg.get(&addr(2)).is_none());
}

#[test]
fn balance_slot_matches_the_canonical_derivation() {
    // The same derivation written directly against the digest crate the
    // library relies on.
    let pool = addr(0x42);
    let slot = pool_balance_slot(&pool, 3);
    let mut preimage = vec![0u8; 12];
    preimage.extend_from_slice(&pool.bytes);
    preimage.extend_from_slice(&[0u8; 24]);
    preimage.extend_from_slice(&3u64.to_be_bytes());
    let expected = ethers::utils::keccak256(&preimage);
    assert_eq!(slot.bytes, expected.to_vec());
}

#[test]
fn analyzer_considers_only_pools_of_the_watched_token() {
    let watched = addr(0xee);
    let other = addr(0xdd);
    let unrelated_a = addr(0xcc);
    let unrelated_b = addr(0xcb);
    let pool_a = addr(1);
    let pool_b = addr(2);
    let mut reg = PoolRegistry::new();
    // The first pool holds the watched token; the second does not.
    reg.insert(pool_v3(pool_a.clone(), watched.clone(), other.clone()));
    reg.insert(pool_v3(pool_b.clone(), unrelated_a.clone(), unrelated_b.clone()));

    let slot_a = pool_balance_slot(&pool_a, 3);
    let slot_b = pool_balance_slot(&pool_b, 3);
    let diff = diff_touching(
        vec![pool_a.clone(), pool_b.clone()],
        &watched,
        vec![
            (slot_a, SlotChange::Changed(word_of(1_000), word_of(1_500))),
            (slot_b, SlotChange::Changed(word_of(1_000), word_of(9_000))),
        ],
    );
    let records = analyze(&tx(), &diff, &reg, &watched, 3).expect("analysis succeeds");
    assert_eq!(records.len(), 1);
    assert_eq!(records[0].pool_address.bytes, pool_a.bytes);
    assert_eq!(records[0].balance_before.bytes, word_of(1_000).bytes);
    assert_eq!(records[0].balance_after.bytes, word_of(1_500).bytes);
    assert_eq!(records[0].tx_hash.bytes, tx().hash.bytes);
}

#[test]
fn analyzer_reports_increase_only() {
    let watched = addr(0xee);
    let pool_a = addr(1);
    let mut reg = PoolRegistry::new();
    reg.insert(pool_v3(pool_a.clone(), watched.clone(), addr(0xdd)));
    let slot = pool_balance_slot(&pool_a, 3);

    let rising = diff_touching(
        vec![pool_a.clone()],
        &watched,
        vec![(Word { bytes: slot.bytes.clone() }, SlotChange::Changed(word_of(1_000), word_of(1_500)))],
    );
    let records = analyze(&tx(), &rising, &reg, &watched, 3).expect("analysis succeeds");
    assert_eq!(records.len(), 1);

    let falling = diff_touching(
        vec![pool_a.clone()],
        &watched,
        vec![(Word { bytes: slot.bytes.clone() }, SlotChange::Changed(word_of(1_500), word_of(1_000)))],
    );
    let records = analyze(&tx(), &falling, &reg, &watched, 3).expect("analysis succeeds");
    assert!(records.is_empty());

    let flat = diff_touching(
        vec![pool_a.clone()],
        &watched,
        vec![(Word { bytes: slot.bytes.clone() }, SlotChange::Changed(word_of(1_000), word_of(1_000)))],
    );
    let records = analyze(&tx(), &flat, &reg, &watched, 3).expect("analysis succeeds");
    assert!(records.is_empty());
}

#[test]
fn analyzer_without_watched_storage_reports_nothing() {
    let watched = addr(0xee);
    let pool_a = addr(1);
    let mut reg = PoolRegistry::new();
    reg.insert(pool_v3(pool_a.clone(), watched.clone(), addr(0xdd)));
    // The pool is touched but the watched token's own storage is not.
    let diff = StateDiff {
        accounts: vec![AccountDiff { address: pool_a.clone(), storage: Vec::new() }],
    };
    let records = analyze(&tx(), &diff, &reg, &watched, 3).expect("analysis succeeds");
    assert!(records.is_empty());
}

#[test]
fn analyzer_ignores_untouched_and_unknown_addresses() {
    let watched = addr(0xee);
    let pool_a = addr(1);
    let mut reg = PoolRegistry::new();
    reg.insert(pool_v3(pool_a.clone(), watched.clone(), addr(0xdd)));
    // Touched addresses the registry does not know yield nothing.
    let diff = diff_touching(vec![addr(8), addr(9)], &watched, Vec::new());
    let records = analyze(&tx(), &diff, &reg, &watched, 3).expect("analysis succeeds");
    assert!(records.is_empty());
}

#[test]
fn analyzer_flags_malformed_changed_value() {
    let watched = addr(0xee);
    let pool_a = addr(1);
    let mut reg = PoolRegistry::new();
    reg.insert(pool_v3(pool_a.clone(), watched.clone(), addr(0xdd)));
    let slot = pool_balance_slot(&pool_a, 3);
    let diff = diff_touching(
        vec![pool_a.clone()],
        &watched,
        vec![(slot, SlotChange::Changed(Word { bytes: vec![0u8; 31] }, word_of(2)))],
    );
    let err = analyze(&tx(), &diff, &reg, &watched, 3).expect_err("malformed word must fail");
    assert_eq!(err, AnalysisError::SlotDecodeFailure);
}

#[test]
fn analyzer_is_idempotent_on_identical_input() {
    let watched = addr(0xee);
    let pool_a = addr(1);
    let mut reg = PoolRegistry::new();
    reg.insert(pool_v3(pool_a.clone(), watched.clone(), addr(0xdd)));
    let slot = pool_balance_slot(&pool_a, 3);
    let diff = diff_touching(
        vec![pool_a.clone()],
        &watched,
        vec![(slot, SlotChange::Changed(word_of(7), word_of(9)))],
    );
    let first = analyze(&tx(), &diff, &reg, &watched, 3).expect("analysis succeeds");
    let second = analyze(&tx(), &diff, &reg, &watched, 3).expect("analysis succeeds");
    assert_eq!(first.len(), second.len());
    for (a, b) in first.iter().zip(second.iter()) {
        assert_eq!(a.tx_hash.bytes, b.tx_hash.bytes);
        assert_eq!(a.pool_address.bytes, b.pool_address.bytes);
        assert_eq!(a.balance_before.bytes, b.balance_before.bytes);
        assert_eq!(a.balance_after.bytes, b.balance_after.bytes);
    }
}

#[test]
fn analyzer_reports_every_qualifying_pool() {
    let watched = addr(0xee);
    let pool_a = addr(1);
    let pool_b = addr(2);
    let mut reg = PoolRegistry::new();
    reg.insert(pool_v3(pool_a.clone(), watched.clone(), addr(0xdd)));
    reg.insert(pool_v3(pool_b.clone(), addr(0xdc), watched.clone()));
    let slot_a = pool_balance_slot(&pool_a, 3);
    let slot_b = pool_balance_slot(&pool_b, 3);
    let diff = diff_touching(
        vec![pool_a.clone(), pool_b.clone()],
        &watched,
        vec![
            (slot_a, SlotChange::Changed(word_of(10), word_of(20))),
            (slot_b, SlotChange::Changed(word_of(30), word_of(40))),
        ],
    );
    let records = analyze(&tx(), &diff, &reg, &watched, 3).expect("analysis succeeds");
    assert_eq!(records.len(), 2);
    assert_eq!(records[0].pool_address.bytes, pool_a.bytes);
    assert_eq!(records[1].pool_address.bytes, pool_b.bytes);
}

#[test]
fn missing_trace_is_a_per_transaction_failure() {
    let err = require_trace(None).expect_err("a missing diff must fail");
    assert_eq!(err, AnalysisError::TraceUnavailable);
    let ok = require_trace(Some(StateDiff { accounts: Vec::new() })).expect("a diff passes");
    assert!(ok.accounts.is_empty());
}
