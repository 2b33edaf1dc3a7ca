//! The money side of trading contracts in lightning channels: the wallet, and taking a channel apart
//! together with the trader at its other end.
pub mod amounts;
pub mod chain;
pub mod channel;
pub mod cli;
pub mod coins;
pub mod confirmation;
pub mod error;
pub mod fees;
pub mod history;
pub mod keys;
pub mod ln_dlc_wallet;
pub mod notification;
pub mod text;
