//! A race engine that measures how fast RPC endpoints of a ledger network propagate and
//! confirm transactions: it builds mutually exclusive transfers from one funded account,
//! records how their dispatch went, and decides which endpoint's transaction confirmed first.
use vstd::prelude::*;

pub mod accounts;
pub mod cli;
pub mod config;
pub mod monitoring;
pub mod solana_utils;
pub mod transaction_sender;
pub mod transactions;

verus! {

/// Errors of the library. Errors raised by outside services are carried as their message.
#[derive(Debug, Clone, PartialEq, Eq)]
pub enum Error {
    Config(String),
    Io(String),
    SolanaClient(String),
    SolanaSdk(String),
    Json(String),
    NoRpcUrls,
    InsufficientRpcUrls,
    KeypairLoad(String),
    TransactionSend(String),
    TransactionConfirm(String),
    DryRunSimulate(String),
    AllTransactionsFailed,
    Other(String),
    /// A balance lookup failed while the roles of the two accounts were being resolved.
    BalanceQuery(String),
    /// The sender's balance does not exceed the reserve that must stay in the account.
    InsufficientBalance { balance: u64, reserve: u64 },
    /// No endpoint was given to build candidates for.
    NoEndpoints,
    /// Every endpoint was skipped, so there is nothing to race.
    NoCandidatesConstructed,
    /// The number of endpoints or reports differs from the number of candidates.
    DispatchCountMismatch { expected: usize, found: usize },
}

pub type Result<T> = core::result::Result<T, Error>;

} // verus!
