//! Keys and signatures.
use crate::chain::witness_view;
use crate::chain::Transaction;
use crate::chain::TransactionView;
use crate::chain::TxOut;
use crate::channel::PublicKey;
use crate::error::WalletError;
use crate::text::join;
use bitcoin::absolute::LockTime;
use bitcoin::hashes;
use bitcoin::secp256k1::Keypair;
use bitcoin::secp256k1::Secp256k1;
use bitcoin::secp256k1::SecretKey as CurveKey;
use bitcoin::transaction::Version;
use bitcoin::Amount;
use bitcoin::EcdsaSighashType::All;
use bitcoin::OutPoint;
use bitcoin::Sequence;
use bitcoin::Transaction as UnsignedTransaction;
use bitcoin::TxIn as UnsignedInput;
use bitcoin::TxOut as PaidOutput;
use bitcoin::Txid;
use dlc::util;
use vstd::prelude::*;

verus! {

/// The network on which a wallet works.
#[derive(Clone, Copy, Debug, PartialEq, Eq, Structural)]
pub enum Network {
    Bitcoin,
    Testnet,
    Signet,
    Regtest,
}

/// A secret key.
pub type SecretKey = [u8; 32];

/// The number that bytes stand for, the most significant byte first.
pub open spec fn big_endian(bytes: Seq<u8>) -> nat
    decreases bytes.len(),
{
    if bytes.len() == 0 {
        0
    } else {
        big_endian(bytes.drop_last()) * 256 + bytes.last() as nat
    }
}

/// Whether bytes are a secret key: a number between zero and the order of the curve, both excluded.
pub open spec fn is_secret_key(bytes: Seq<u8>) -> bool {
    0 < big_endian(bytes)
        < 0xFFFF_FFFF_FFFF_FFFF_FFFF_FFFF_FFFF_FFFE_BAAE_DCE6_AF48_A03B_BFD2_5E8C_D036_4141nat
}

/// The compressed public key that belongs to a secret key.
pub uninterp spec fn public_key_of(secret_key: Seq<u8>) -> Seq<u8>;

/// The signature, as it stands on the witness stack, that spends an output paid to the hash of the
/// public key that belongs to the given secret key.
pub uninterp spec fn p2wpkh_signature(
    secret_key: Seq<u8>,
    transaction: TransactionView,
    input_index: int,
    value: int,
) -> Seq<u8>;

/// The address that stands for a script on a network, if there is one.
pub uninterp spec fn address_of_script(script: Seq<u8>, network: Network) -> Option<Seq<char>>;

/// Calls `bitcoin::Address::from_script` and writes the address as text.
#[verifier::external_body]
pub(crate) fn script_to_address(script: &Vec<u8>, network: Network) -> (address: Option<String>)
    ensures
        address is Some == address_of_script(script@, network) is Some,
        address is Some ==> address->0@ == address_of_script(script@, network)->0,
{
    let network = match network {
        Network::Bitcoin => bitcoin::Network::Bitcoin,
        Network::Testnet => bitcoin::Network::Testnet,
        Network::Signet => bitcoin::Network::Signet,
        Network::Regtest => bitcoin::Network::Regtest,
    };
    let script = bitcoin::Script::from_bytes(script);
    Some(bitcoin::Address::from_script(script, network).ok()?.to_string())
}

/// Calls `dlc::util::sign_p2wpkh_input`, which signs an input for all inputs and outputs with the
/// given secret key and puts the signature and the public key on the input's witness stack.
///
/// It fails only if the bytes are not a secret key or there is no such input. The signature is made
/// without chance, so it is the same every time. It does not cover the scripts and witnesses of the
/// inputs, so they are not handed over.
#[verifier::external_body]
fn sign_p2wpkh_input(
    secret_key: &SecretKey,
    tx: &Transaction,
    input_index: usize,
    value: u64,
) -> (witness: Result<Vec<Vec<u8>>, dlc::Error>)
    ensures
        witness is Ok == (is_secret_key(secret_key@) && input_index < tx.input@.len()),
        witness is Ok ==> witness_view(witness->Ok_0@) == seq![
            p2wpkh_signature(secret_key@, tx@, input_index as int, value as int),
            public_key_of(secret_key@),
        ],
{
    let mut tx = UnsignedTransaction {
        version: Version(tx.version),
        lock_time: LockTime::from_consensus(tx.lock_time),
        input: tx.input.iter().map(|i| UnsignedInput {
            previous_output: OutPoint::new(<Txid as hashes::Hash>::from_byte_array(i.txid), i.vout),
            sequence: Sequence(i.sequence), ..UnsignedInput::default()
        }).collect(),
        output: tx.output.iter().map(|o| PaidOutput {
            value: Amount::from_sat(o.value), script_pubkey: o.script_pubkey.clone().into(),
        }).collect(),
    };
    let key = CurveKey::from_slice(secret_key)?;
    util::sign_p2wpkh_input(&Secp256k1::new(), &key, &mut tx, input_index, All, Amount::from_sat(value))?;
    Ok(tx.input[input_index].witness.to_vec())
}

/// A secret key and the public key that belongs to it.
#[derive(Clone, Copy, Debug)]
pub struct KeyPair {
    pub secret_key: SecretKey,
    pub public_key: PublicKey,
}

impl KeyPair {
    /// Whether the public key belongs to the secret key.
    pub open spec fn is_pair(self) -> bool {
        &&& is_secret_key(self.secret_key@)
        &&& self.public_key@ == public_key_of(self.secret_key@)
    }
}

/// Calls `bitcoin::secp256k1::Keypair::new` with the generator of `rand::thread_rng`. The key is a
/// matter of chance; whatever it is, the public key belongs to the secret key.
#[verifier::external_body]
fn random_key_pair() -> (pair: KeyPair)
    ensures
        pair.is_pair(),
{
    let pair = Keypair::new(&Secp256k1::new(), &mut rand::thread_rng());
    KeyPair { secret_key: pair.secret_bytes(), public_key: pair.public_key().serialize() }
}

/// Makes a new pair of keys. It is to be stored before the secret key is handed out.
pub fn new_key_pair() -> (pair: KeyPair)
    ensures
        pair.is_pair(),
        is_secret_key(pair.secret_key@),
        pair.public_key@ == public_key_of(pair.secret_key@),
{
    random_key_pair()
}

/// Hands out the secret key of a new pair once the pair has been stored.
pub fn get_new_secret_key(pair: &KeyPair, stored: Result<(), String>) -> (key: Result<
    SecretKey,
    WalletError,
>)
    ensures
        match stored {
            Ok(_) => key matches Ok(secret_key) && secret_key == pair.secret_key,
            Err(cause) => key matches Err(error) && error.is_storage_error(
                "Failed to update key pair. "@ + cause@,
            ),
        },
{
    match stored {
        Ok(_) => Ok(pair.secret_key),
        Err(cause) => Err(
            WalletError::StorageError(join("Failed to update key pair. ", cause.as_str())),
        ),
    }
}

/// The secret key that belongs to a public key, out of what the storage came up with.
pub fn get_secret_key_for_pubkey(found: Result<Option<SecretKey>, String>) -> (key: Result<
    SecretKey,
    WalletError,
>)
    ensures
        match found {
            Ok(Some(secret_key)) => key matches Ok(handed_out) && handed_out == secret_key,
            Ok(None) => key matches Err(error) && error.is_storage_error(
                "No sk for provided pk"@,
            ),
            Err(cause) => key matches Err(error) && error.is_storage_error(
                "Couldn't get priv key for pubkey. "@ + cause@,
            ),
        },
{
    match found {
        Ok(Some(secret_key)) => Ok(secret_key),
        Ok(None) => Err(WalletError::StorageError("No sk for provided pk".to_owned())),
        Err(cause) => Err(
            WalletError::StorageError(join("Couldn't get priv key for pubkey. ", cause.as_str())),
        ),
    }
}

/// Signs an input of a transaction that spends the given output, paid to the hash of a public key,
/// with the secret key that the storage came up with for the output's address.
///
/// The storage has to have the key.
pub fn sign_tx_input(
    tx: &mut Transaction,
    input_index: usize,
    tx_out: &TxOut,
    found: Result<Option<SecretKey>, String>,
) -> (signed: Result<(), WalletError>)
    requires
        found matches Ok(key) ==> key is Some,
    ensures
        match found {
            Ok(key) => if is_secret_key(key->0@) && input_index < old(tx).input@.len() {
                &&& signed is Ok
                &&& final(tx)@ == old(tx)@.with_witness(
                    input_index as int,
                    seq![
                        p2wpkh_signature(key->0@, old(tx)@, input_index as int, tx_out.value as int),
                        public_key_of(key->0@),
                    ],
                )
                &&& final(tx).version == old(tx).version
                &&& final(tx).lock_time == old(tx).lock_time
                &&& final(tx).output == old(tx).output
                &&& final(tx).input@.len() == old(tx).input@.len()
                &&& forall|i: int|
                    0 <= i < old(tx).input@.len() && i != input_index ==> final(tx).input@[i]
                        == old(tx).input@[i]
                &&& final(tx).input@[input_index as int].witness@.len() == 2
                &&& final(tx).input@[input_index as int].witness@[0]@ == p2wpkh_signature(
                    key->0@,
                    old(tx)@,
                    input_index as int,
                    tx_out.value as int,
                )
                &&& final(tx).input@[input_index as int].witness@[1]@ == public_key_of(key->0@)
            } else {
                &&& signed matches Err(WalletError::DlcError(_))
                &&& *final(tx) == *old(tx)
            },
            Err(cause) => {
                &&& signed matches Err(error)
                &&& error.is_storage_error("Couldn't get priv key for address. "@ + cause@)
                &&& *final(tx) == *old(tx)
            },
        },
{
    let secret_key: SecretKey = match found {
        Ok(key) => key.unwrap(),
        Err(cause) => return Err(
            WalletError::StorageError(join("Couldn't get priv key for address. ", cause.as_str())),
        ),
    };
    match sign_p2wpkh_input(&secret_key, tx, input_index, tx_out.value) {
        Ok(witness) => {
            assert(witness_view(witness@).len() == witness@.len());
            assert(witness_view(witness@)[0] == witness@[0]@);
            assert(witness_view(witness@)[1] == witness@[1]@);
            tx.set_witness(input_index, witness);
            Ok(())
        },
        Err(error) => Err(WalletError::DlcError(error)),
    }
}

} // verus!
