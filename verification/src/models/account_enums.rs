use vstd::prelude::*;

verus! {

/// The wallet contract that an address was deployed with.
#[derive(Debug, Clone, Copy, PartialEq, Eq, Structural)]
pub enum AccountType {
    HighloadWallet,
    Wallet,
    SafeMultisig,
}

/// Where a transaction stands in its lifecycle.
#[derive(Debug, Clone, Copy, PartialEq, Eq, Structural)]
pub enum TonTransactionStatus {
    New,
    Done,
    PartiallyDone,
    Error,
}

/// Whether value left the account or reached it.
#[derive(Debug, Clone, Copy, PartialEq, Eq, Structural)]
pub enum TonTransactionDirection {
    Send,
    Receive,
}

/// Where a token transaction stands in its lifecycle.
#[derive(Debug, Clone, Copy, PartialEq, Eq, Structural)]
pub enum TonTokenTransactionStatus {
    New,
    Done,
    Error,
}

} // verus!
