//! The program monitor: what an account says about the program behind an
//! address.

use vstd::prelude::*;

verus! {

/// What the ledger returned for a program's address.
#[derive(Debug)]
pub struct ProgramAccount {
    pub executable: bool,
    pub data: Vec<u8>,
}

/// Why no bytecode was had.
#[derive(Clone, Copy, Debug, PartialEq, Eq)]
pub enum MonitorError {
    /// The ledger returned no account.
    FetchFailed,
    /// The account is no program.
    NotExecutable,
    /// The program has no data.
    NoBytecode,
}

/// The monitor of one ledger endpoint.
#[derive(Debug)]
pub struct ProgramMonitor {
    pub endpoint: String,
}

impl ProgramMonitor {
    /// The monitor of the development network.
    pub fn new() -> (monitor: ProgramMonitor)
        ensures
            monitor.endpoint@ == "https://api.devnet.solana.com"@,
    {
        ProgramMonitor { endpoint: String::from_str("https://api.devnet.solana.com") }
    }

    /// The monitor of `endpoint`.
    pub fn new_with_endpoint(endpoint: &str) -> (monitor: ProgramMonitor)
        ensures
            monitor.endpoint@ == endpoint@,
    {
        ProgramMonitor { endpoint: String::from_str(endpoint) }
    }

    /// The bytecode of the program whose account the ledger returned, or
    /// `None` for an account it could not return. The account must be
    /// executable and hold data.
    pub fn fetch_program_bytecode(&self, account: Option<ProgramAccount>) -> (r: Result<
        Vec<u8>,
        MonitorError,
    >)
        ensures
            match r {
                Ok(bytecode) => account matches Some(a) && a.executable && a.data@.len() > 0
                    && bytecode@ == a.data@,
                Err(MonitorError::FetchFailed) => account is None,
                Err(MonitorError::NotExecutable) => account matches Some(a) && !a.executable,
                Err(MonitorError::NoBytecode) => account matches Some(a) && a.executable
                    && a.data@.len() == 0,
            },
    {
        match account {
            None => Err(MonitorError::FetchFailed),
            Some(account) => {
                if !account.executable {
                    Err(MonitorError::NotExecutable)
                } else if account.data.len() == 0 {
                    Err(MonitorError::NoBytecode)
                } else {
                    Ok(account.data)
                }
            },
        }
    }

    /// Whether a program stands behind the address: the ledger returned an
    /// account, and it is executable.
    pub fn verify_program_exists(&self, account: Option<&ProgramAccount>) -> (exists: bool)
        ensures
            exists == (account matches Some(a) && a.executable),
    {
        match account {
            Some(account) => account.executable,
            None => false,
        }
    }
}

} // verus!
