//! The wallet commands of the command line.
use vstd::prelude::*;

verus! {

/// A wallet command.
pub enum WalletCmds {
    /// Print the wallet address.
    Address,
    /// Print the wallet balance.
    Balance,
    /// Deposit DBCs from the received directory to the local wallet, or read
    /// a hex encoded DBC from stdin.
    Deposit { stdin: bool },
    /// Send an amount of nanos to a hex-encoded public address.
    Send { amount: String, to: String },
    /// Pay for storing the files found under a directory.
    Pay { path: String },
}

impl WalletCmds {
    /// Whether the command changes the wallet rather than only reading it.
    pub fn writes_wallet(&self) -> (r: bool)
        ensures
            r == !(self is Address || self is Balance),
    {
        match self {
            WalletCmds::Address | WalletCmds::Balance => false,
            _ => true,
        }
    }
}

} // verus!
