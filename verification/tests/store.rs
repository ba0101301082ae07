use txodump::block::OutPoint;
use txodump::store::{Utxo, UtxoStore};

fn outpoint(tag: u8, index: u32) -> OutPoint {
    OutPoint { txid: [tag; 32], index }
}

#[test]
fn insert_then_lookup() {
    let mut store = UtxoStore::new();
    store.insert(outpoint(1, 0), 5000, 7);
    assert_eq!(store.lookup(&outpoint(1, 0)), Some(Utxo { value: 5000, height: 7 }));
}

#[test]
fn lookup_absent_is_none() {
    let store = UtxoStore::new();
    assert_eq!(store.lookup(&outpoint(1, 0)), None);
}

#[test]
fn lookup_distinguishes_index_and_txid() {
    let mut store = UtxoStore::new();
    store.insert(outpoint(1, 0), 10, 0);
    assert_eq!(store.lookup(&outpoint(1, 1)), None);
    assert_eq!(store.lookup(&outpoint(2, 0)), None);
}

#[test]
fn duplicate_insert_last_write_wins() {
    let mut store = UtxoStore::new();
    store.insert(outpoint(3, 2), 1000, 4);
    store.insert(outpoint(3, 2), 2500, 9);
    assert_eq!(store.lookup(&outpoint(3, 2)), Some(Utxo { value: 2500, height: 9 }));
}

#[test]
fn remove_returns_pair_and_deletes() {
    let mut store = UtxoStore::new();
    store.insert(outpoint(5, 1), 42, 3);
    assert_eq!(store.remove(&outpoint(5, 1)), Some(Utxo { value: 42, height: 3 }));
    assert_eq!(store.lookup(&outpoint(5, 1)), None);
    assert_eq!(store.remove(&outpoint(5, 1)), None);
}

#[test]
fn remove_absent_leaves_others() {
    let mut store = UtxoStore::new();
    store.insert(outpoint(6, 0), 11, 1);
    assert_eq!(store.remove(&outpoint(7, 0)), None);
    assert_eq!(store.lookup(&outpoint(6, 0)), Some(Utxo { value: 11, height: 1 }));
}

#[test]
fn outpoint_equality_by_contents() {
    let a = OutPoint { txid: [9; 32], index: 4 };
    let b = OutPoint { txid: [9; 32], index: 4 };
    let c = OutPoint { txid: [9; 32], index: 5 };
    let mut d_txid = [9u8; 32];
    d_txid[31] = 8;
    let d = OutPoint { txid: d_txid, index: 4 };
    assert!(a.same_as(&b));
    assert!(!a.same_as(&c));
    assert!(!a.same_as(&d));
}
