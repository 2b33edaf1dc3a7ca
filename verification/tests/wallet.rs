use ln_dlc::chain::TxOut;
use ln_dlc::error::WalletError;
use ln_dlc::history::BlockTime;
use ln_dlc::history::TransactionDetails;
use ln_dlc::keys::Network;
use ln_dlc::ln_dlc_wallet::LnDlcWallet;
use ln_dlc::ln_dlc_wallet::TxStatus;

fn wallet() -> LnDlcWallet {
    LnDlcWallet::new(Network::Regtest, "first".to_string())
}

fn blockchain_error<T>(result: Result<T, WalletError>) -> String {
    match result {
        Err(WalletError::BlockchainError(text)) => text,
        _ => panic!("the blockchain should have failed"),
    }
}

#[test]
fn a_wallet_starts_with_the_address_it_is_given() {
    let wallet = wallet();
    assert_eq!(wallet.get_network(), Network::Regtest);
    assert_eq!(wallet.unused_address(), "first");
    assert_eq!(wallet.unused_address(), "first");
    assert_eq!(wallet.get_new_address(), "first");
}

#[test]
fn the_cache_holds_the_last_address_found() {
    let mut wallet = wallet();
    assert_eq!(
        wallet.sync_and_update_address_cache(Err("sync")),
        Err("sync")
    );
    assert_eq!(wallet.unused_address(), "first");
    assert_eq!(
        wallet.sync_and_update_address_cache::<&str>(Ok(Ok("second".to_string()))),
        Ok(())
    );
    assert_eq!(wallet.unused_address(), "second");
    assert_eq!(
        wallet.sync_and_update_address_cache(Ok(Err("address"))),
        Err("address")
    );
    assert_eq!(wallet.unused_address(), "second");
    assert_eq!(wallet.get_new_address(), "second");
    assert_eq!(wallet.get_network(), Network::Regtest);
}

#[test]
fn on_chain_transactions_come_sorted() {
    let details = |id: u8, height: Option<u32>| TransactionDetails {
        transaction: None,
        txid: [id; 32],
        received: 0,
        sent: 0,
        fee: None,
        confirmation_time: height.map(|height| BlockTime {
            height,
            timestamp: 0,
        }),
    };
    let listed = vec![details(1, None), details(2, Some(5)), details(3, Some(6))];
    let sorted = wallet()
        .on_chain_transactions::<&str>(Ok(listed))
        .unwrap();
    let ids: Vec<u8> = sorted.iter().map(|details| details.txid[0]).collect();
    assert_eq!(ids, vec![3, 2, 1]);
    assert_eq!(
        wallet().on_chain_transactions(Err("list")).unwrap_err(),
        "list"
    );
}

#[test]
fn the_height_is_that_of_the_tip() {
    assert_eq!(
        wallet().get_blockchain_height(Ok(u32::MAX)).unwrap(),
        u32::MAX as u64
    );
    assert_eq!(
        blockchain_error(wallet().get_blockchain_height(Err("down".to_string()))),
        "down"
    );
}

#[test]
fn heights_are_cut_to_32_bits() {
    assert_eq!(wallet().height_to_look_up(800_000), 800_000);
    assert_eq!(wallet().height_to_look_up((1 << 32) + 3), 3);
}

#[test]
fn a_block_is_found_or_the_error_says_where_it_was_looked_for() {
    let wallet = wallet();
    assert_eq!(
        wallet.get_block_at_height(7, Ok(Ok(Some("block")))).unwrap(),
        "block"
    );
    let text = |height, looked_up| {
        blockchain_error::<&str>(wallet.get_block_at_height(height, looked_up))
    };
    assert_eq!(
        text(0, Ok(Ok(None))),
        "Could not find block at height 0"
    );
    assert_eq!(
        text(800_109, Ok(Err("down".to_string()))),
        "Could not find block at height 800109: down"
    );
    assert_eq!(
        text(u64::MAX, Err("no hash".to_string())),
        "Could not find block at height 18446744073709551615: no hash"
    );
}

#[test]
fn a_transaction_is_found_or_the_error_names_it() {
    let wallet = wallet();
    let mut txid = [0u8; 32];
    txid[0] = 0x1f;
    txid[31] = 0xab;
    let shown = format!("ab{}1f", "00".repeat(30));
    assert_eq!(
        wallet.get_transaction(&txid, Ok(Some("tx"))).unwrap(),
        "tx"
    );
    assert_eq!(
        blockchain_error::<&str>(wallet.get_transaction(&txid, Ok(None))),
        format!("Could not get transaction body {shown}")
    );
    assert_eq!(
        blockchain_error::<&str>(wallet.get_transaction(&txid, Err("down".to_string()))),
        format!("Could not find transaction {shown}: down")
    );
}

#[test]
fn confirmations_are_counted_from_the_tip() {
    let wallet = wallet();
    let status = |block_height| Ok(Some(TxStatus { block_height }));
    assert_eq!(wallet.confirmation_height(status(Some(90))).unwrap(), Some(90));
    assert_eq!(wallet.confirmation_height(status(None)).unwrap(), None);
    assert_eq!(wallet.confirmation_height(Ok(None)).unwrap(), None);
    assert_eq!(
        blockchain_error(wallet.confirmation_height(Err("down".to_string()))),
        "down"
    );

    let count = |height, tip| wallet.get_transaction_confirmations(height, tip);
    assert_eq!(count(Some(90), Ok(100)).unwrap(), 10);
    assert_eq!(count(Some(90), Ok(90)).unwrap(), 0);
    assert_eq!(count(Some(90), Ok(80)).unwrap(), 0);
    assert_eq!(count(None, Ok(100)).unwrap(), 0);
    assert_eq!(count(None, Err("down".to_string())).unwrap(), 0);
    assert_eq!(
        blockchain_error(count(Some(90), Err("down".to_string()))),
        "down"
    );
}

#[test]
fn an_output_is_paid_to_the_address_of_its_script() {
    // The program of the example addresses of the segregated witness address format.
    let mut script_pubkey = vec![0x00, 0x14];
    script_pubkey.extend([
        0x75, 0x1e, 0x76, 0xe8, 0x19, 0x91, 0x96, 0xd4, 0x54, 0x94, 0x1c, 0x45, 0xd1, 0xb3, 0xa3,
        0x23, 0xf1, 0x43, 0x3b, 0xd6,
    ]);
    let tx_out = TxOut {
        value: 1,
        script_pubkey,
    };
    let on = |network| LnDlcWallet::new(network, String::new()).signing_address(&tx_out);
    assert_eq!(
        on(Network::Bitcoin).unwrap(),
        "bc1qw508d6qejxtdg4y5r3zarvary0c5xw7kv8f3t4"
    );
    assert_eq!(
        on(Network::Testnet).unwrap(),
        "tb1qw508d6qejxtdg4y5r3zarvary0c5xw7kxpjzsx"
    );
    assert_eq!(on(Network::Testnet), on(Network::Signet));
    assert!(on(Network::Regtest).unwrap().starts_with("bcrt1q"));

    let nothing = TxOut {
        value: 1,
        script_pubkey: vec![0x6a],
    };
    assert_eq!(wallet().signing_address(&nothing), None);
}
