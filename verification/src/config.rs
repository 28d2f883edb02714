//! Configuration: what is written in the file, and the watch-lists it
//! stands for.

use crate::address::{base58_bytes, Address, AddressError};
use vstd::prelude::*;

verus! {

/// The configuration as written: the store's endpoint and the two
/// watch-lists, each an array of addresses in base 58 or absent.
#[derive(Debug)]
pub struct Config {
    pub database_url: String,
    pub programs: Option<Vec<String>>,
    pub tracked_users: Option<Vec<String>>,
}

/// Why a configuration is refused.
#[derive(Clone, Copy, Debug, PartialEq, Eq)]
pub enum ConfigError {
    /// The program at this place in the list is no address.
    InvalidProgram { index: usize, reason: AddressError },
    /// The user at this place in the list is no address.
    InvalidUser { index: usize, reason: AddressError },
}

/// The watch-lists, read once and never changed: the programs whose accounts
/// are listings, and the users whose assets are tracked.
#[derive(Debug)]
pub struct WatchConfig {
    pub database_endpoint: String,
    pub programs: Vec<Address>,
    pub users: Vec<Address>,
}

/// Whether a text is the base-58 form of thirty-two bytes.
pub open spec fn is_address_text(text: Seq<char>) -> bool {
    base58_bytes(text) matches Some(bytes) && bytes.len() == 32
}

/// Whether `list` holds, place by place, the addresses that `texts` name.
pub open spec fn names(texts: Seq<String>, list: Seq<Address>) -> bool {
    &&& list.len() == texts.len()
    &&& forall|i: int|
        0 <= i < texts.len() ==> base58_bytes((#[trigger] texts[i])@) == Some(list[i]@)
}

/// Whether every text is an address.
pub open spec fn all_addresses(texts: Seq<String>) -> bool {
    forall|i: int| 0 <= i < texts.len() ==> is_address_text((#[trigger] texts[i])@)
}

/// Why a text that is no address is none.
pub open spec fn reason_of(text: Seq<char>) -> AddressError {
    if base58_bytes(text) is None {
        AddressError::NotBase58
    } else {
        AddressError::WrongLength
    }
}

/// Whether the text at `index` is the first that is no address, and is none
/// for `reason`.
pub open spec fn first_invalid(texts: Seq<String>, index: int, reason: AddressError) -> bool {
    &&& 0 <= index < texts.len()
    &&& !is_address_text(texts[index]@)
    &&& reason == reason_of(texts[index]@)
    &&& forall|j: int| 0 <= j < index ==> is_address_text((#[trigger] texts[j])@)
}

/// The texts of a list that may be absent.
pub open spec fn or_empty(list: Option<Vec<String>>) -> Seq<String> {
    match list {
        Some(texts) => texts@,
        None => Seq::empty(),
    }
}

/// Whether `r` is what reading `config` gives: the watch-lists that its
/// texts name, or the first text that is no address, programs before users.
pub open spec fn loaded(config: Config, r: Result<WatchConfig, ConfigError>) -> bool {
    match r {
        Ok(watch) => {
            &&& watch.database_endpoint@ == config.database_url@
            &&& names(or_empty(config.programs), watch.programs@)
            &&& names(or_empty(config.tracked_users), watch.users@)
        },
        Err(ConfigError::InvalidProgram { index, reason }) => first_invalid(
            or_empty(config.programs),
            index as int,
            reason,
        ),
        Err(ConfigError::InvalidUser { index, reason }) => {
            &&& all_addresses(or_empty(config.programs))
            &&& first_invalid(or_empty(config.tracked_users), index as int, reason)
        },
    }
}

/// Reads a list of addresses. The error names the first text that is no
/// address, and why.
pub fn parse_addresses(texts: &Vec<String>) -> (r: Result<Vec<Address>, (usize, AddressError)>)
    ensures
        match r {
            Ok(list) => names(texts@, list@),
            Err((index, reason)) => first_invalid(texts@, index as int, reason),
        },
{
    let mut list: Vec<Address> = Vec::new();
    let mut i: usize = 0;
    while i < texts.len()
        invariant
            i <= texts.len(),
            list@.len() == i,
            forall|j: int| 0 <= j < i ==> base58_bytes((#[trigger] texts@[j])@) == Some(list@[j]@),
        decreases texts.len() - i,
    {
        match Address::parse(texts[i].as_str()) {
            Ok(address) => {
                list.push(address);
            },
            Err(reason) => {
                return Err((i, reason));
            },
        }
        i += 1;
    }
    Ok(list)
}

impl WatchConfig {
    /// The watch-lists of a configuration. An absent list is an empty one;
    /// every text must be an address, the programs being read first.
    pub fn from_config(config: &Config) -> (r: Result<WatchConfig, ConfigError>)
        ensures
            loaded(*config, r),
    {
        let programs = match &config.programs {
            Some(texts) => match parse_addresses(texts) {
                Ok(list) => list,
                Err((index, reason)) => {
                    return Err(ConfigError::InvalidProgram { index, reason });
                },
            },
            None => Vec::new(),
        };
        let users = match &config.tracked_users {
            Some(texts) => match parse_addresses(texts) {
                Ok(list) => list,
                Err((index, reason)) => {
                    return Err(ConfigError::InvalidUser { index, reason });
                },
            },
            None => Vec::new(),
        };
        Ok(WatchConfig { database_endpoint: config.database_url.clone(), programs, users })
    }
}

} // verus!
