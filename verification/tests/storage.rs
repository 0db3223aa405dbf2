use dex_indexer::amount::Amount;
use dex_indexer::checkpoint::CheckpointStore;
use dex_indexer::model::{Checkpoint, PriceRecord};
use dex_indexer::price::Price;
use dex_indexer::store::PriceTable;

fn st_record(pair: &str, chain: &str, height: u64, tx: u64, log: u64, price: u64, at: u64) -> PriceRecord {
    PriceRecord {
        pair_key: pair.to_string(),
        price: Some(Price { scaled: Amount::from_u64(price) }),
        chain_id: chain.to_string(),
        block_height: height,
        tx_index: tx,
        log_index: log,
        inserted_at: at,
    }
}

fn st_contents(table: &PriceTable) -> Vec<PriceRecord> {
    (0..table.len()).map(|i| table.get(i).unwrap()).collect()
}

#[test]
fn new_table_is_empty() {
    let table = PriceTable::new();
    assert_eq!(table.len(), 0);
    assert_eq!(table.get(0), None);
    assert_eq!(table.latest_price("A/B"), None);
}

#[test]
fn upsert_stores_a_new_record() {
    let mut table = PriceTable::new();
    let r = st_record("A/B", "ethereum", 10, 0, 0, 7, 100);
    assert!(!table.contains_key(&r));
    assert!(table.upsert(r.clone()));
    assert!(table.contains_key(&r));
    assert_eq!(table.len(), 1);
    assert_eq!(table.get(0), Some(r));
    assert_eq!(table.get(1), None);
}

#[test]
fn upsert_of_a_present_key_changes_nothing() {
    let mut table = PriceTable::new();
    let first = st_record("A/B", "ethereum", 10, 0, 0, 7, 100);
    let again = st_record("A/B", "ethereum", 10, 0, 0, 9, 200);
    assert!(table.upsert(first.clone()));
    assert!(!table.upsert(again));
    assert_eq!(st_contents(&table), vec![first]);
}

#[test]
fn key_is_chain_height_transaction_and_log() {
    let mut table = PriceTable::new();
    assert!(table.upsert(st_record("A/B", "ethereum", 10, 0, 0, 7, 1)));
    assert!(table.upsert(st_record("A/B", "polygon", 10, 0, 0, 7, 1)));
    assert!(table.upsert(st_record("A/B", "ethereum", 11, 0, 0, 7, 1)));
    assert!(table.upsert(st_record("A/B", "ethereum", 10, 1, 0, 7, 1)));
    assert!(table.upsert(st_record("A/B", "ethereum", 10, 0, 1, 7, 1)));
    assert!(!table.upsert(st_record("C/D", "ethereum", 10, 0, 1, 8, 2)));
    assert_eq!(table.len(), 5);
}

#[test]
fn replaying_a_batch_leaves_the_table_as_it_was() {
    let batch = vec![
        st_record("A/B", "ethereum", 10, 0, 0, 7, 100),
        st_record("A/B", "ethereum", 10, 0, 1, 8, 100),
        st_record("C/D", "ethereum", 11, 2, 0, 9, 100),
    ];
    let mut table = PriceTable::new();
    assert!(table.upsert(st_record("A/B", "ethereum", 9, 0, 0, 1, 50)));
    assert_eq!(table.upsert_batch(&batch), 3);
    let once = st_contents(&table);
    assert_eq!(once.len(), 4);
    assert_eq!(table.upsert_batch(&batch), 0);
    assert_eq!(st_contents(&table), once);
    let later: Vec<PriceRecord> =
        batch.iter().map(|r| PriceRecord { inserted_at: 999, ..r.clone() }).collect();
    assert_eq!(table.upsert_batch(&later), 0);
    assert_eq!(st_contents(&table), once);
}

#[test]
fn batch_with_a_repeated_key_stores_the_first() {
    let batch = vec![
        st_record("A/B", "ethereum", 10, 0, 0, 7, 100),
        st_record("A/B", "ethereum", 10, 0, 0, 8, 101),
    ];
    let mut table = PriceTable::new();
    assert_eq!(table.upsert_batch(&batch), 1);
    assert_eq!(st_contents(&table), vec![batch[0].clone()]);
    assert_eq!(table.upsert_batch(&vec![]), 0);
}

#[test]
fn latest_price_is_the_record_at_the_greatest_height() {
    let mut table = PriceTable::new();
    table.upsert(st_record("A/B", "ethereum", 10, 0, 0, 1, 1));
    table.upsert(st_record("A/B", "ethereum", 30, 0, 0, 3, 1));
    table.upsert(st_record("A/B", "ethereum", 20, 5, 5, 2, 1));
    table.upsert(st_record("C/D", "ethereum", 40, 0, 0, 4, 1));
    let latest = table.latest_price("A/B").unwrap();
    assert_eq!(latest, st_record("A/B", "ethereum", 30, 0, 0, 3, 1));
    assert_eq!(table.latest_price("C/D").unwrap().block_height, 40);
    assert_eq!(table.latest_price("E/F"), None);
    assert_eq!(table.latest_price(""), None);
}

#[test]
fn latest_price_within_a_block_is_the_last_swap() {
    let mut table = PriceTable::new();
    table.upsert(st_record("A/B", "ethereum", 10, 1, 9, 1, 1));
    table.upsert(st_record("A/B", "ethereum", 10, 2, 0, 2, 1));
    table.upsert(st_record("A/B", "ethereum", 10, 2, 3, 3, 1));
    table.upsert(st_record("A/B", "ethereum", 10, 2, 1, 4, 1));
    assert_eq!(table.latest_price("A/B").unwrap().price.unwrap().scaled.to_u128(), Some(3));
}

#[test]
fn latest_price_of_equally_late_records_is_the_first_written() {
    let mut table = PriceTable::new();
    table.upsert(st_record("A/B", "ethereum", 10, 1, 1, 1, 1));
    table.upsert(st_record("A/B", "polygon", 10, 1, 1, 2, 1));
    assert_eq!(table.latest_price("A/B").unwrap().chain_id, "ethereum");
}

#[test]
fn latest_price_returns_a_record_without_price_as_it_is() {
    let mut table = PriceTable::new();
    let mut r = st_record("A/B", "ethereum", 10, 1, 1, 1, 1);
    r.price = None;
    table.upsert(r.clone());
    assert_eq!(table.latest_price("A/B"), Some(r));
}

#[test]
fn checkpoint_store_starts_empty() {
    let store = CheckpointStore::new();
    assert_eq!(store.get("ethereum"), None);
}

#[test]
fn checkpoint_is_set_and_read_back() {
    let mut store = CheckpointStore::new();
    let cp = Checkpoint {
        chain_id: "ethereum".to_string(),
        last_processed_height: 900,
        last_processed_hash: [9u8; 32],
    };
    store.set(cp.clone());
    assert_eq!(store.get("ethereum"), Some(cp.clone()));
    assert_eq!(store.get("solana"), None);
    assert_eq!(cp.position().height, 900);
    assert_eq!(cp.position().hash, [9u8; 32]);
    assert_eq!(cp.duplicate(), cp);
}

#[test]
fn checkpoint_of_a_chain_is_replaced_and_others_stay() {
    let mut store = CheckpointStore::new();
    let eth = |h: u64| Checkpoint {
        chain_id: "ethereum".to_string(),
        last_processed_height: h,
        last_processed_hash: [h as u8; 32],
    };
    let sol = Checkpoint {
        chain_id: "solana".to_string(),
        last_processed_height: 5,
        last_processed_hash: [1u8; 32],
    };
    store.set(eth(1));
    store.set(sol.clone());
    store.set(eth(2));
    assert_eq!(store.get("ethereum"), Some(eth(2)));
    assert_eq!(store.get("solana"), Some(sol));
    store.set(eth(1));
    assert_eq!(store.get("ethereum"), Some(eth(1)));
}
