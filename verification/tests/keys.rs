use bitcoin::secp256k1::ecdsa::Signature;
use bitcoin::secp256k1::Message;
use bitcoin::secp256k1::PublicKey;
use bitcoin::secp256k1::Secp256k1;
use bitcoin::sighash::SighashCache;
use ln_dlc::chain::Transaction;
use ln_dlc::chain::TxIn;
use ln_dlc::chain::TxOut;
use ln_dlc::error::WalletError;
use ln_dlc::keys::get_new_secret_key;
use ln_dlc::keys::get_secret_key_for_pubkey;
use ln_dlc::keys::new_key_pair;
use ln_dlc::keys::sign_tx_input;

fn transaction() -> Transaction {
    let input = |id, vout| TxIn {
        txid: [id; 32],
        vout,
        script_sig: vec![],
        sequence: 0xffff_fffd,
        witness: vec![],
    };
    Transaction {
        version: 2,
        lock_time: 600_000,
        input: vec![input(1, 0), input(2, 7)],
        output: vec![TxOut {
            value: 5_000,
            script_pubkey: vec![0x51],
        }],
    }
}

fn spent() -> TxOut {
    TxOut {
        value: 7_000,
        script_pubkey: vec![],
    }
}

/// The same transaction as the bitcoin crate has it.
fn reference() -> bitcoin::Transaction {
    let input = |id: u8, vout| bitcoin::TxIn {
        previous_output: bitcoin::OutPoint::new(
            <bitcoin::Txid as bitcoin::hashes::Hash>::from_byte_array([id; 32]),
            vout,
        ),
        script_sig: bitcoin::ScriptBuf::new(),
        sequence: bitcoin::Sequence(0xffff_fffd),
        witness: bitcoin::Witness::new(),
    };
    bitcoin::Transaction {
        version: bitcoin::transaction::Version(2),
        lock_time: bitcoin::absolute::LockTime::from_consensus(600_000),
        input: vec![input(1, 0), input(2, 7)],
        output: vec![bitcoin::TxOut {
            value: bitcoin::Amount::from_sat(5_000),
            script_pubkey: bitcoin::ScriptBuf::from(vec![0x51]),
        }],
    }
}

#[test]
fn a_signature_spends_the_output_of_its_key() {
    let mut tx = transaction();
    let secret_key = [0xcd; 32];
    sign_tx_input(&mut tx, 1, &spent(), Ok(Some(secret_key))).unwrap();

    let secp = Secp256k1::new();
    let public_key =
        PublicKey::from_secret_key(&secp, &bitcoin::secp256k1::SecretKey::from_slice(&secret_key).unwrap());
    assert!(tx.input[0].witness.is_empty());
    let witness = &tx.input[1].witness;
    assert_eq!(witness.len(), 2);
    assert_eq!(witness[1], public_key.serialize().to_vec());
    assert_eq!(*witness[0].last().unwrap(), 1);

    let reference = reference();
    let script =
        bitcoin::ScriptBuf::new_p2wpkh(&bitcoin::CompressedPublicKey(public_key).wpubkey_hash());
    let hash = SighashCache::new(&reference)
        .p2wpkh_signature_hash(
            1,
            &script,
            bitcoin::Amount::from_sat(7_000),
            bitcoin::EcdsaSighashType::All,
        )
        .unwrap();
    let signature = Signature::from_der(&witness[0][..witness[0].len() - 1]).unwrap();
    let message = Message::from_digest(*<bitcoin::SegwitV0Sighash as AsRef<[u8; 32]>>::as_ref(&hash));
    assert!(secp.verify_ecdsa(&message, &signature, &public_key).is_ok());
}

#[test]
fn a_signature_is_the_same_every_time() {
    let sign = || {
        let mut tx = transaction();
        sign_tx_input(&mut tx, 0, &spent(), Ok(Some([0xcd; 32]))).unwrap();
        tx.input[0].witness.clone()
    };
    assert_eq!(sign(), sign());
}

#[test]
fn what_cannot_be_signed_stays_as_it_was() {
    let mut tx = transaction();
    let missing_input = sign_tx_input(&mut tx, 2, &spent(), Ok(Some([0xcd; 32])));
    assert!(matches!(missing_input, Err(WalletError::DlcError(_))));
    let no_key = sign_tx_input(&mut tx, 0, &spent(), Ok(Some([0; 32])));
    assert!(matches!(no_key, Err(WalletError::DlcError(_))));
    let beyond_the_curve = sign_tx_input(&mut tx, 0, &spent(), Ok(Some([0xff; 32])));
    assert!(matches!(beyond_the_curve, Err(WalletError::DlcError(_))));
    let unread = sign_tx_input(&mut tx, 0, &spent(), Err("disk".to_string()));
    assert!(
        matches!(unread, Err(WalletError::StorageError(text)) if text == "Couldn't get priv key for address. disk")
    );
    assert!(tx.input.iter().all(|input| input.witness.is_empty()));
}

#[test]
fn the_order_of_the_curve_is_no_key() {
    let mut order = [0xff; 32];
    order[15] = 0xfe;
    let low: [u8; 16] = [
        0xba, 0xae, 0xdc, 0xe6, 0xaf, 0x48, 0xa0, 0x3b, 0xbf, 0xd2, 0x5e, 0x8c, 0xd0, 0x36, 0x41,
        0x41,
    ];
    order[16..].copy_from_slice(&low);
    let mut tx = transaction();
    assert!(sign_tx_input(&mut tx, 0, &spent(), Ok(Some(order))).is_err());
    order[31] = 0x40;
    assert!(sign_tx_input(&mut tx, 0, &spent(), Ok(Some(order))).is_ok());
}

#[test]
fn new_keys_belong_together_and_differ() {
    let pair = new_key_pair();
    let secret_key = bitcoin::secp256k1::SecretKey::from_slice(&pair.secret_key).unwrap();
    assert_eq!(
        PublicKey::from_secret_key(&Secp256k1::new(), &secret_key).serialize(),
        pair.public_key
    );
    assert_ne!(pair.secret_key, new_key_pair().secret_key);
}

#[test]
fn a_new_key_is_handed_out_once_it_is_stored() {
    let pair = new_key_pair();
    assert_eq!(get_new_secret_key(&pair, Ok(())).unwrap(), pair.secret_key);
    let unstored = get_new_secret_key(&pair, Err("disk".to_string()));
    assert!(
        matches!(unstored, Err(WalletError::StorageError(text)) if text == "Failed to update key pair. disk")
    );
}

#[test]
fn a_stored_key_is_handed_out() {
    assert_eq!(
        get_secret_key_for_pubkey(Ok(Some([5; 32]))).unwrap(),
        [5; 32]
    );
    let missing = get_secret_key_for_pubkey(Ok(None));
    assert!(
        matches!(missing, Err(WalletError::StorageError(text)) if text == "No sk for provided pk")
    );
    let unread = get_secret_key_for_pubkey(Err("disk".to_string()));
    assert!(
        matches!(unread, Err(WalletError::StorageError(text)) if text == "Couldn't get priv key for pubkey. disk")
    );
}
