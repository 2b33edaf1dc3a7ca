use ln_dlc::chain::TxOut;
use ln_dlc::coins::get_utxos_for_amount;
use ln_dlc::coins::take_selection;
use ln_dlc::coins::Utxo;
use ln_dlc::coins::UtxoLocking;
use ln_dlc::coins::UtxoSelection;
use ln_dlc::coins::UtxoWrap;
use ln_dlc::error::WalletError;

fn utxo(id: u8, value: u64, reserved: bool) -> Utxo {
    Utxo {
        tx_out: TxOut {
            value,
            script_pubkey: vec![id],
        },
        txid: [id; 32],
        vout: 4,
        address: format!("address {id}"),
        redeem_script: vec![id, id],
        reserved,
    }
}

fn ids(utxos: &[Utxo]) -> Vec<u8> {
    let mut ids: Vec<u8> = utxos.iter().map(|utxo| utxo.txid[0]).collect();
    ids.sort();
    ids
}

fn not_enough(selection: Result<UtxoSelection, WalletError>) -> bool {
    matches!(selection, Err(WalletError::InvalidState(text)) if text == "Not enough fund in utxos")
}

#[test]
fn a_choice_that_needs_no_change_is_found() {
    for _ in 0..20 {
        let utxos = vec![
            utxo(1, 50_000, false),
            utxo(2, 30_000, false),
            utxo(3, 9_000, false),
            utxo(4, 1_010, false),
        ];
        let selection = get_utxos_for_amount(Ok(utxos), 40_000, false).unwrap();
        assert_eq!(ids(&selection.selected), vec![2, 3, 4]);
        assert!(selection.to_lock.is_empty());
    }
}

#[test]
fn a_choice_covers_the_amount() {
    for _ in 0..20 {
        let utxos = vec![
            utxo(1, 50_000, false),
            utxo(2, 30_000, false),
            utxo(3, 20_000, false),
        ];
        let selection = get_utxos_for_amount(Ok(utxos), 60_000, true).unwrap();
        let value: u64 = selection.selected.iter().map(|utxo| utxo.tx_out.value).sum();
        assert!(value >= 60_000);
        assert_eq!(ids(&selection.selected), ids(&selection.to_lock));
    }
}

#[test]
fn reserved_outputs_are_left_alone() {
    let utxos = || {
        vec![
            utxo(1, 50_000, true),
            utxo(2, 30_000, false),
            utxo(3, 20_000, true),
        ]
    };
    let selection = get_utxos_for_amount(Ok(utxos()), 10_000, false).unwrap();
    assert_eq!(ids(&selection.selected), vec![2]);
    assert!(not_enough(get_utxos_for_amount(Ok(utxos()), 30_001, false)));
}

#[test]
fn all_outputs_together_have_to_be_worth_enough() {
    let utxos = || vec![utxo(1, 10_000, false), utxo(2, 5_000, false)];
    let selection = get_utxos_for_amount(Ok(utxos()), 15_000, false).unwrap();
    assert_eq!(ids(&selection.selected), vec![1, 2]);
    assert!(not_enough(get_utxos_for_amount(Ok(utxos()), 15_001, false)));
    assert!(not_enough(get_utxos_for_amount(Ok(vec![]), 0, false)));
}

#[test]
fn nothing_to_pay_still_takes_an_output() {
    let utxos = vec![utxo(1, 10_000, false), utxo(2, 5_000, false)];
    let selection = get_utxos_for_amount(Ok(utxos), 0, false).unwrap();
    assert_eq!(selection.selected.len(), 1);
}

#[test]
fn outputs_that_cannot_be_read_cannot_be_chosen() {
    let selection = get_utxos_for_amount(Err("disk".to_string()), 1, false);
    assert!(
        matches!(selection, Err(WalletError::StorageError(text)) if text == "Failed to get utxos. disk")
    );
}

#[test]
fn what_is_chosen_is_handed_out_as_it_stood_and_locked() {
    let utxos = vec![utxo(1, 10_000, false), utxo(2, 5_000, false)];
    let chosen = vec![UtxoWrap {
        value: 5_000,
        index: 1,
    }];
    let selection = take_selection(&utxos, Some(chosen), true).unwrap();
    assert_eq!(selection.selected.len(), 1);
    let selected = &selection.selected[0];
    assert_eq!(selected.tx_out.value, 5_000);
    assert_eq!(selected.tx_out.script_pubkey, vec![2]);
    assert_eq!(selected.txid, [2; 32]);
    assert_eq!(selected.vout, 4);
    assert_eq!(selected.address, "address 2");
    assert_eq!(selected.redeem_script, vec![2, 2]);
    assert!(!selected.reserved);
    assert_eq!(selection.to_lock.len(), 1);
    assert_eq!(selection.to_lock[0].txid, [2; 32]);
    assert!(selection.to_lock[0].reserved);
    assert!(not_enough(take_selection(&utxos, None, true)));
}

#[test]
fn locked_outputs_are_not_chosen_again() {
    let mut utxos = vec![utxo(1, 10_000, false), utxo(2, 10_000, false)];
    let first = get_utxos_for_amount(Ok(vec![utxo(1, 10_000, false), utxo(2, 10_000, false)]), 10_000, true)
        .unwrap();
    for locked in first.to_lock {
        let at = utxos.iter().position(|utxo| utxo.txid == locked.txid).unwrap();
        utxos[at] = locked;
    }
    let second = get_utxos_for_amount(Ok(utxos), 10_000, true).unwrap();
    assert_ne!(ids(&first.selected), ids(&second.selected));
}

fn selection() -> UtxoSelection {
    UtxoSelection {
        selected: vec![utxo(1, 10, false), utxo(2, 20, false)],
        to_lock: vec![utxo(1, 10, true), utxo(2, 20, true)],
    }
}

#[test]
fn outputs_are_handed_out_once_all_are_locked() {
    let locking = UtxoLocking::new(selection());
    assert_eq!(locking.next_to_lock().unwrap().txid, [1; 32]);
    let locking = locking.into_selected().unwrap_err();
    let locking = locking.take_stored(Ok(())).unwrap();
    assert_eq!(locking.next_to_lock().unwrap().txid, [2; 32]);
    let locking = locking.take_stored(Ok(())).unwrap();
    assert!(locking.next_to_lock().is_none());
    assert_eq!(ids(&locking.into_selected().unwrap()), vec![1, 2]);
}

#[test]
fn an_output_that_cannot_be_stored_ends_the_locking() {
    let locking = UtxoLocking::new(selection()).take_stored(Ok(())).unwrap();
    let error = locking.take_stored(Err("disk".to_string())).unwrap_err();
    assert!(
        matches!(error, WalletError::StorageError(text) if text == "Failed to upsert utxo. disk")
    );
}
