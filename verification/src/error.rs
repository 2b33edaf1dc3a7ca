//! What the wallet reports when it cannot do what it is asked.
use vstd::prelude::*;

verus! {

/// Why the wallet could not do what it was asked.
#[derive(Debug)]
pub enum WalletError {
    /// The blockchain could not be queried or does not know what was asked for.
    BlockchainError(String),
    /// What the wallet stores could not be read or written, or lacks what was asked for.
    StorageError(String),
    /// The wallet's state does not allow what was asked.
    InvalidState(String),
    /// A transaction could not be signed.
    DlcError(dlc::Error),
}

impl WalletError {
    /// Whether this is an error of the blockchain with the given text.
    pub open spec fn is_blockchain_error(self, text: Seq<char>) -> bool {
        self matches WalletError::BlockchainError(shown) && shown@ == text
    }

    /// Whether this is an error of the storage with the given text.
    pub open spec fn is_storage_error(self, text: Seq<char>) -> bool {
        self matches WalletError::StorageError(shown) && shown@ == text
    }

    /// Whether this is an error about the wallet's state with the given text.
    pub open spec fn is_invalid_state(self, text: Seq<char>) -> bool {
        self matches WalletError::InvalidState(shown) && shown@ == text
    }
}

/// Law: an error is of a sort and has a text exactly if it was made of that sort with that text.
pub proof fn law_error_carries_its_text(error: WalletError, text: Seq<char>)
    ensures
        error.is_blockchain_error(text) <==> (error matches WalletError::BlockchainError(shown)
            && shown@ == text),
        error.is_storage_error(text) <==> (error matches WalletError::StorageError(shown) && shown@
            == text),
        error.is_invalid_state(text) <==> (error matches WalletError::InvalidState(shown) && shown@
            == text),
{
}

} // verus!
