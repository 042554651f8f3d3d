use transparent_disk::balance::MAX_MONEY;
use transparent_disk::location::{Height, OutputLocation, TransactionLocation};
use transparent_disk::output::{TransparentOutput, UnspentOutputAddressLocation};
use transparent_disk::transfers::{BalanceError, ChainOrdered, TransparentTransfers, Utxo};

fn location(height: u32, tx: u16, output: u32) -> OutputLocation {
    OutputLocation::from_output_index(TransactionLocation::from_index(Height(height), tx), output)
}

fn utxo(value: u64) -> Utxo {
    Utxo {
        output: TransparentOutput { value, lock_script: vec![0x51] },
        height: Height(1),
        from_coinbase: false,
    }
}

#[test]
fn new_transfers_are_empty() {
    let t = TransparentTransfers::new();
    assert_eq!(t.balance(), 0);
    assert!(t.tx_ids().is_empty());
    assert!(t.created_locations().is_empty());
    assert!(!t.spent_contains(location(1, 1, 1)));
}

#[test]
fn tx_ids_come_out_in_chain_order() {
    let mut t = TransparentTransfers::new();
    let a = TransactionLocation::from_index(Height(5), 2);
    let b = TransactionLocation::from_index(Height(3), 9);
    let c = TransactionLocation::from_index(Height(5), 1);
    t.note_tx(a, [1; 32]);
    t.note_tx(b, [2; 32]);
    t.note_tx(c, [3; 32]);
    t.note_tx(a, [4; 32]);
    assert_eq!(t.tx_ids(), vec![(b, [2; 32]), (c, [3; 32]), (a, [4; 32])]);
}

#[test]
fn credit_and_debit_move_the_balance() {
    let mut t = TransparentTransfers::new();
    assert_eq!(t.credit(location(2, 0, 1), utxo(500)), Ok(()));
    assert_eq!(t.credit(location(1, 0, 0), utxo(200)), Ok(()));
    assert_eq!(t.balance(), 700);
    assert_eq!(t.created_locations(), vec![location(1, 0, 0), location(2, 0, 1)]);
    assert!(t.created_contains(location(2, 0, 1)));
    assert!(!t.created_contains(location(2, 0, 2)));
    assert_eq!(t.debit(location(1, 0, 0), 200), Ok(()));
    assert_eq!(t.balance(), 500);
    assert!(t.spent_contains(location(1, 0, 0)));
    assert_eq!(t.debit(location(9, 0, 0), 1000), Ok(()));
    assert_eq!(t.balance(), -500);
}

#[test]
fn balance_change_out_of_range_is_refused() {
    let mut t = TransparentTransfers::new();
    assert_eq!(t.credit(location(1, 0, 0), utxo(MAX_MONEY)), Ok(()));
    assert_eq!(t.credit(location(1, 0, 1), utxo(1)), Err(BalanceError::OutOfRange));
    assert_eq!(t.balance(), MAX_MONEY as i64);
    assert!(!t.created_contains(location(1, 0, 1)));
    let mut u = TransparentTransfers::new();
    assert_eq!(u.debit(location(1, 0, 0), MAX_MONEY + 1), Err(BalanceError::OutOfRange));
    assert!(!u.spent_contains(location(1, 0, 0)));
    assert_eq!(u.debit(location(1, 0, 0), MAX_MONEY), Ok(()));
    assert_eq!(u.balance(), -(MAX_MONEY as i64));
}

#[test]
fn chain_keys_follow_chain_order() {
    let a = location(1, 0xffff, 0xffff_ffff);
    let b = location(2, 0, 0);
    assert!(a.key() < b.key());
    assert_eq!(TransactionLocation::from_index(Height(1), 2).key(), 0x1_0002);
}

#[test]
fn unspent_height_mut() {
    let output = TransparentOutput { value: 1, lock_script: vec![] };
    let mut with = UnspentOutputAddressLocation::new(output.clone(), Some(location(4, 5, 6)));
    *with.height_mut().unwrap() = Height(40);
    assert_eq!(with.address_location(), Some(location(40, 5, 6)));
    let mut without = UnspentOutputAddressLocation::new(output, None);
    assert!(without.height_mut().is_none());
}
