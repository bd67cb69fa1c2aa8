use vstd::prelude::*;

verus! {

/// A 32-byte hash, as used for block hashes, transaction hashes and topics.
#[derive(Clone, Copy, Debug, PartialEq, Eq)]
pub struct H256 {
    pub bytes: [u8; 32],
}

/// A 20-byte account or contract address.
#[derive(Clone, Copy, Debug, PartialEq, Eq)]
pub struct Address {
    pub bytes: [u8; 20],
}

/// A 256-bit unsigned integer, held as four 64-bit limbs, least significant first.
#[derive(Clone, Copy, Debug, PartialEq, Eq)]
pub struct U256 {
    pub limbs: [u64; 4],
}

/// A log record as the chain reports it: the emitting address, the indexed
/// topics, the non-indexed data, and where it sits in the chain. A pending log
/// has no block or transaction position yet.
#[derive(Clone, Debug)]
pub struct RawLog {
    pub address: Address,
    pub topics: Vec<H256>,
    pub data: Vec<u8>,
    pub block_hash: Option<H256>,
    pub block_number: Option<u64>,
    pub transaction_hash: Option<H256>,
    pub transaction_index: Option<u64>,
    pub log_index: Option<U256>,
    pub transaction_log_index: Option<U256>,
    pub log_type: Option<String>,
    pub removed: Option<bool>,
}

/// Where a decoded event came from: the network it was read on and the
/// chain position of its log.
#[derive(Debug)]
pub struct TxInformation {
    pub network: String,
    pub address: Address,
    pub block_hash: Option<H256>,
    pub block_number: Option<u64>,
    pub transaction_hash: Option<H256>,
    pub transaction_index: Option<u64>,
    pub log_index: Option<U256>,
    pub transaction_log_index: Option<U256>,
    pub log_type: Option<String>,
    pub removed: Option<bool>,
}

/// `info` records `log`, read on `network`, field for field: nothing absent
/// from the log is filled in, nothing present is altered.
pub open spec fn provenance_of(info: TxInformation, network: Seq<char>, log: RawLog) -> bool {
    &&& info.network@ == network
    &&& info.address == log.address
    &&& info.block_hash == log.block_hash
    &&& info.block_number == log.block_number
    &&& info.transaction_hash == log.transaction_hash
    &&& info.transaction_index == log.transaction_index
    &&& info.log_index == log.log_index
    &&& info.transaction_log_index == log.transaction_log_index
    &&& info.log_type == log.log_type
    &&& info.removed == log.removed
}

fn copy_log_type(t: &Option<String>) -> (r: Option<String>)
    ensures
        r == *t,
{
    match t {
        Some(s) => Some(s.clone()),
        None => None,
    }
}

impl TxInformation {
    /// The provenance of `log` as read on `network`.
    pub fn extract(network: &String, log: &RawLog) -> (r: TxInformation)
        ensures
            provenance_of(r, network@, *log),
    {
        TxInformation {
            network: network.clone(),
            address: log.address,
            block_hash: log.block_hash,
            block_number: log.block_number,
            transaction_hash: log.transaction_hash,
            transaction_index: log.transaction_index,
            log_index: log.log_index,
            transaction_log_index: log.transaction_log_index,
            log_type: copy_log_type(&log.log_type),
            removed: log.removed,
        }
    }

    /// Whether the log was retracted by a chain reorganisation. A log that
    /// does not say counts as not removed.
    pub fn is_removed(&self) -> (r: bool)
        ensures
            r == (self.removed == Some(true)),
    {
        match self.removed {
            Some(b) => b,
            None => false,
        }
    }

    /// Whether the log is still pending: it has no block yet.
    pub fn is_pending(&self) -> (r: bool)
        ensures
            r == (self.block_hash is None && self.block_number is None),
    {
        self.block_hash.is_none() && self.block_number.is_none()
    }
}

} // verus!
