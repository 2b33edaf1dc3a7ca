use ln_dlc::chain::finalize_multi_sig_input_transaction;
use ln_dlc::chain::Transaction;
use ln_dlc::chain::TxIn;
use ln_dlc::chain::TxOut;

fn transaction() -> Transaction {
    let input = |id| TxIn {
        txid: [id; 32],
        vout: 1,
        script_sig: vec![],
        sequence: 0xffff_ffff,
        witness: vec![],
    };
    Transaction {
        version: 2,
        lock_time: 0,
        input: vec![input(1), input(2)],
        output: vec![TxOut {
            value: 5_000,
            script_pubkey: vec![0x51],
        }],
    }
}

fn key(last: u8) -> [u8; 33] {
    let mut key = [2; 33];
    key[32] = last;
    key
}

fn witness(first: u8, second: u8) -> Vec<Vec<u8>> {
    let mut transaction = transaction();
    finalize_multi_sig_input_transaction(
        &mut transaction,
        &key(first),
        &vec![first],
        &key(second),
        &vec![second],
        &vec![0xae],
        0,
    );
    assert!(transaction.input[1].witness.is_empty());
    assert_eq!(transaction.output.len(), 1);
    transaction.input[0].witness.clone()
}

#[test]
fn signatures_stand_in_the_order_of_their_keys() {
    let expected = vec![vec![], vec![5, 1], vec![9, 1], vec![0xae]];
    assert_eq!(witness(5, 9), expected);
    assert_eq!(witness(9, 5), expected);
}

#[test]
fn the_first_byte_of_a_key_decides_first() {
    let mut transaction = transaction();
    let mut low = key(9);
    low[0] = 2;
    let mut high = key(5);
    high[0] = 3;
    finalize_multi_sig_input_transaction(
        &mut transaction,
        &high,
        &vec![0x33],
        &low,
        &vec![0x22],
        &vec![],
        1,
    );
    assert!(transaction.input[0].witness.is_empty());
    assert_eq!(
        transaction.input[1].witness,
        vec![vec![], vec![0x22, 1], vec![0x33, 1], vec![]]
    );
}

#[test]
fn the_last_witness_stays() {
    let mut transaction = transaction();
    transaction.set_witness(0, vec![vec![1]]);
    transaction.set_witness(0, vec![vec![2], vec![3]]);
    assert_eq!(transaction.input[0].witness, vec![vec![2], vec![3]]);
    assert_eq!(transaction.input[0].txid, [1; 32]);
    assert!(transaction.input[1].witness.is_empty());
}
