//! The wallet as the contracts see it.
//!
//! Whoever holds the wallet talks to the blockchain and to the storage and hands over what came of
//! it; failures come as text, or as whatever type `E` the caller reports them with.
use crate::chain::TxOut;
use crate::error::WalletError;
use crate::history::most_recent_first;
use crate::history::of_rank;
use crate::history::sort_most_recent_first;
use crate::history::TransactionDetails;
use crate::keys::address_of_script;
use crate::keys::script_to_address;
use crate::keys::Network;
use crate::text::decimal_text;
use crate::text::hex_text;
use crate::text::join;
use crate::text::to_decimal;
use crate::text::txid_to_text;
use vstd::prelude::*;

verus! {

/// A wallet that hands out addresses from a cache.
#[derive(Debug)]
pub struct LnDlcWallet {
    network: Network,
    /// The last unused address as of the latest synchronisation with the blockchain.
    ///
    /// An address is handed out more than once if it is asked for more than once between two
    /// synchronisations. This is accepted, since the alternative is to keep callers waiting until a
    /// synchronisation ends.
    address_cache: String,
}

/// What the blockchain says of a transaction.
#[derive(Clone, Copy, Debug)]
pub struct TxStatus {
    /// The height of the block that confirmed the transaction, if one has.
    pub block_height: Option<u32>,
}

/// The address that a synchronisation came up with, if it came off and an address was found.
pub open spec fn fetched_address<E>(synced: Result<Result<String, E>, E>) -> Option<Seq<char>> {
    match synced {
        Ok(Ok(address)) => Some(address@),
        _ => None,
    }
}

/// What the cache holds after a synchronisation: the address found or else what it held before.
pub open spec fn next_cached(cached: Seq<char>, fetched: Option<Seq<char>>) -> Seq<char> {
    match fetched {
        Some(address) => address,
        None => cached,
    }
}

/// What the cache holds after a number of synchronisations.
pub open spec fn cached_after(cached: Seq<char>, fetched: Seq<Option<Seq<char>>>) -> Seq<char>
    decreases fetched.len(),
{
    if fetched.len() == 0 {
        cached
    } else {
        next_cached(cached_after(cached, fetched.drop_last()), fetched.last())
    }
}

impl LnDlcWallet {
    /// The network on which the wallet works.
    pub closed spec fn on_network(self) -> Network {
        self.network
    }

    /// The address that the wallet hands out.
    pub closed spec fn cached_address(self) -> Seq<char> {
        self.address_cache@
    }

    /// A wallet on a network, with the last unused address that is known so far.
    pub fn new(network: Network, last_unused_address: String) -> (wallet: LnDlcWallet)
        ensures
            wallet.on_network() == network,
            wallet.cached_address() == last_unused_address@,
    {
        LnDlcWallet { network, address_cache: last_unused_address }
    }

    /// The network on which the wallet works.
    pub fn get_network(&self) -> (network: Network)
        ensures
            network == self.on_network(),
    {
        self.network
    }

    /// An address that had not been used as of the latest synchronisation.
    pub fn unused_address(&self) -> (address: String)
        ensures
            address@ == self.cached_address(),
    {
        self.address_cache.clone()
    }

    /// A new address to be paid at: the unused one.
    pub fn get_new_address(&self) -> (address: String)
        ensures
            address@ == self.cached_address(),
    {
        self.unused_address()
    }

    /// Takes what came of a synchronisation with the blockchain and, if it came off, of the search for
    /// the last unused address. The cache changes only if both came off.
    pub fn sync_and_update_address_cache<E>(
        &mut self,
        synced: Result<Result<String, E>, E>,
    ) -> (updated: Result<(), E>)
        ensures
            final(self).on_network() == old(self).on_network(),
            final(self).cached_address() == next_cached(
                old(self).cached_address(),
                fetched_address(synced),
            ),
            match synced {
                Ok(Ok(address)) => updated is Ok && final(self).cached_address() == address@,
                Ok(Err(error)) => updated == Err::<(), E>(error) && *final(self) == *old(self),
                Err(error) => updated == Err::<(), E>(error) && *final(self) == *old(self),
            },
    {
        match synced {
            Ok(fetched) => self.update_address_cache(fetched),
            Err(error) => Err(error),
        }
    }

    /// Takes what came of the search for the last unused address.
    fn update_address_cache<E>(&mut self, fetched: Result<String, E>) -> (updated: Result<(), E>)
        ensures
            final(self).on_network() == old(self).on_network(),
            match fetched {
                Ok(address) => updated is Ok && final(self).cached_address() == address@,
                Err(error) => updated == Err::<(), E>(error) && *final(self) == *old(self),
            },
    {
        match fetched {
            Ok(address) => {
                self.address_cache = address;
                Ok(())
            },
            Err(error) => Err(error),
        }
    }

    /// The on-chain transactions, out of what the wallet listed, with the most recent ones first.
    /// Transactions of the same height keep their order, and those that are not confirmed come last.
    ///
    /// The list is not up to date unless the wallet has been synchronised with the blockchain.
    pub fn on_chain_transactions<E>(
        &self,
        listed: Result<Vec<TransactionDetails>, E>,
    ) -> (transactions: Result<Vec<TransactionDetails>, E>)
        ensures
            match listed {
                Ok(all) => {
                    &&& transactions matches Ok(sorted)
                    &&& most_recent_first(sorted@)
                    &&& forall|rank: int| #[trigger] of_rank(sorted@, rank) == of_rank(all@, rank)
                    &&& sorted@.to_multiset() == all@.to_multiset()
                    &&& forall|i: int, j: int|
                        0 <= i < j < sorted@.len() && (
                        #[trigger] sorted@[j]).confirmation_time is Some ==> (
                        #[trigger] sorted@[i]).confirmation_time is Some
                            && sorted@[i].confirmation_time->0.height
                            >= sorted@[j].confirmation_time->0.height
                },
                Err(error) => transactions == Err::<Vec<TransactionDetails>, E>(error),
            },
    {
        match listed {
            Ok(all) => Ok(sort_most_recent_first(all)),
            Err(error) => Err(error),
        }
    }

    /// The height of the blockchain, out of what was heard of its tip.
    pub fn get_blockchain_height(&self, tip: Result<u32, String>) -> (height: Result<
        u64,
        WalletError,
    >)
        ensures
            match tip {
                Ok(at) => height matches Ok(found) && found == at,
                Err(cause) => height matches Err(error) && error.is_blockchain_error(cause@),
            },
    {
        match tip {
            Ok(at) => Ok(at as u64),
            Err(cause) => Err(WalletError::BlockchainError(cause)),
        }
    }

    /// The height at which to look for a block: the blockchain counts its blocks with 32 bits, and a
    /// height that needs more is cut to its last 32.
    pub fn height_to_look_up(&self, height: u64) -> (looked_up: u32)
        ensures
            looked_up == height % 0x1_0000_0000,
    {
        assert(height as u32 == height % 0x1_0000_0000) by (bit_vector);
        height as u32
    }

    /// The block at a height, out of what came of the search for its hash and, if that came off, of
    /// the search for the block with that hash.
    pub fn get_block_at_height<B>(
        &self,
        height: u64,
        looked_up: Result<Result<Option<B>, String>, String>,
    ) -> (block: Result<B, WalletError>)
        ensures
            match looked_up {
                Ok(Ok(Some(found))) => block matches Ok(handed_out) && handed_out == found,
                Ok(Ok(None)) => block matches Err(error) && error.is_blockchain_error(
                    "Could not find block at height "@ + decimal_text(height as nat),
                ),
                Ok(Err(cause)) => block matches Err(error) && error.is_blockchain_error(
                    "Could not find block at height "@ + decimal_text(height as nat) + ": "@ + cause@,
                ),
                Err(cause) => block matches Err(error) && error.is_blockchain_error(
                    "Could not find block at height "@ + decimal_text(height as nat) + ": "@ + cause@,
                ),
            },
    {
        let cause = match looked_up {
            Ok(Ok(Some(found))) => return Ok(found),
            Ok(Ok(None)) => None,
            Ok(Err(cause)) => Some(cause),
            Err(cause) => Some(cause),
        };
        let mut text = join("Could not find block at height ", to_decimal(height).as_str());
        if let Some(cause) = cause {
            text.append(": ");
            text.append(cause.as_str());
        }
        Err(WalletError::BlockchainError(text))
    }

    /// A transaction, out of what came of the search for it.
    pub fn get_transaction<T>(
        &self,
        txid: &[u8; 32],
        fetched: Result<Option<T>, String>,
    ) -> (transaction: Result<T, WalletError>)
        ensures
            match fetched {
                Ok(Some(found)) => transaction matches Ok(handed_out) && handed_out == found,
                Ok(None) => transaction matches Err(error) && error.is_blockchain_error(
                    "Could not get transaction body "@ + hex_text(txid@.reverse()),
                ),
                Err(cause) => transaction matches Err(error) && error.is_blockchain_error(
                    "Could not find transaction "@ + hex_text(txid@.reverse()) + ": "@ + cause@,
                ),
            },
    {
        match fetched {
            Ok(Some(found)) => Ok(found),
            Ok(None) => Err(
                WalletError::BlockchainError(
                    join("Could not get transaction body ", txid_to_text(txid).as_str()),
                ),
            ),
            Err(cause) => {
                let mut text = join("Could not find transaction ", txid_to_text(txid).as_str());
                text.append(": ");
                text.append(cause.as_str());
                Err(WalletError::BlockchainError(text))
            },
        }
    }

    /// The height at which a transaction was confirmed, out of what was heard of its status. A
    /// transaction that is not known, or not in a block, has not been confirmed.
    pub fn confirmation_height(
        &self,
        status: Result<Option<TxStatus>, String>,
    ) -> (height: Result<Option<u32>, WalletError>)
        ensures
            match status {
                Ok(Some(known)) => height matches Ok(found) && found == known.block_height,
                Ok(None) => height matches Ok(found) && found is None,
                Err(cause) => height matches Err(error) && error.is_blockchain_error(cause@),
            },
    {
        match status {
            Ok(Some(known)) => Ok(known.block_height),
            Ok(None) => Ok(None),
            Err(cause) => Err(WalletError::BlockchainError(cause)),
        }
    }

    /// How many blocks have come on top of the one that confirmed a transaction, out of what was heard
    /// of the height of the blockchain. There are none as long as the transaction is not confirmed,
    /// whatever was heard, and none if the blockchain is heard to end below that block.
    pub fn get_transaction_confirmations(
        &self,
        confirmation_height: Option<u32>,
        tip: Result<u32, String>,
    ) -> (confirmations: Result<u32, WalletError>)
        ensures
            match (confirmation_height, tip) {
                (None, _) => confirmations matches Ok(count) && count == 0,
                (Some(height), Ok(at)) => confirmations matches Ok(count) && count == if at
                    >= height {
                    at - height
                } else {
                    0
                },
                (Some(_), Err(cause)) => confirmations matches Err(error)
                    && error.is_blockchain_error(cause@),
            },
    {
        let height: u32 = match confirmation_height {
            Some(height) => height,
            None => return Ok(0),
        };
        match tip {
            Ok(at) => Ok(
                match at.checked_sub(height) {
                    Some(count) => count,
                    None => 0,
                },
            ),
            Err(cause) => Err(WalletError::BlockchainError(cause)),
        }
    }

    /// The address to which an output is paid, by which its secret key is stored. There is none if the
    /// output's script does not stand for an address.
    pub fn signing_address(&self, tx_out: &TxOut) -> (address: Option<String>)
        ensures
            match address_of_script(tx_out.script_pubkey@, self.on_network()) {
                Some(text) => address matches Some(found) && found@ == text,
                None => address is None,
            },
    {
        script_to_address(&tx_out.script_pubkey, self.network)
    }
}

/// Law: whatever became of the synchronisations, the cache holds the address found by the last one
/// that came off, or the one that the wallet started with if none has.
pub proof fn law_cache_holds_the_last_address_found(
    cached: Seq<char>,
    fetched: Seq<Option<Seq<char>>>,
)
    ensures
        ({
            ||| cached_after(cached, fetched) == cached && forall|i: int|
                0 <= i < fetched.len() ==> (#[trigger] fetched[i]) is None
            ||| exists|i: int|
                {
                    &&& 0 <= i < fetched.len()
                    &&& #[trigger] fetched[i] == Some(cached_after(cached, fetched))
                    &&& forall|j: int| i < j < fetched.len() ==> (#[trigger] fetched[j]) is None
                }
        }),
    decreases fetched.len(),
{
    if fetched.len() > 0 {
        let earlier = fetched.drop_last();
        law_cache_holds_the_last_address_found(cached, earlier);
        let last = fetched.len() - 1;
        if fetched[last] is Some {
            assert(fetched[last] == Some(cached_after(cached, fetched)));
        } else {
            assert(cached_after(cached, fetched) == cached_after(cached, earlier));
            assert forall|i: int| 0 <= i < earlier.len() implies earlier[i] == #[trigger] fetched[i] by {}
            if exists|i: int|
                {
                    &&& 0 <= i < earlier.len()
                    &&& #[trigger] earlier[i] == Some(cached_after(cached, earlier))
                    &&& forall|j: int| i < j < earlier.len() ==> (#[trigger] earlier[j]) is None
                } {
                let i = choose|i: int|
                    {
                        &&& 0 <= i < earlier.len()
                        &&& #[trigger] earlier[i] == Some(cached_after(cached, earlier))
                        &&& forall|j: int| i < j < earlier.len() ==> (#[trigger] earlier[j]) is None
                    };
                assert(fetched[i] == Some(cached_after(cached, fetched)));
            }
        }
    }
}

} // verus!
