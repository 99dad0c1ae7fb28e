//! The indexer's configuration, built as an immutable record.
use vstd::prelude::*;
use crate::ingester::{copy_strings, Contract, MinConfirmationCount};

verus! {

pub const DEFAULT_BLOCKS_PER_BATCH: u64 = 20;

pub const DEFAULT_HANDLER_INTERVAL_MS: u64 = 10000;

pub const DEFAULT_INGESTION_INTERVAL_MS: u64 = 10000;

pub const DEFAULT_MIN_CONFIRMATION_COUNT: u64 = 40;

/// A chain id with the URL of its JSON-RPC endpoint.
#[derive(Debug)]
pub struct ChainEndpoint {
    pub chain_id: u64,
    pub json_rpc_url: String,
}

#[derive(Debug)]
pub struct Config {
    pub chains: Vec<ChainEndpoint>,
    pub contracts: Vec<Contract>,
    pub reset_count: u8,
    pub blocks_per_batch: u64,
    pub handler_interval_ms: u64,
    pub ingestion_interval_ms: u64,
    pub min_confirmation_count: MinConfirmationCount,
}

impl ChainEndpoint {
    pub fn copy(&self) -> (r: ChainEndpoint)
        ensures
            r == *self,
    {
        ChainEndpoint { chain_id: self.chain_id, json_rpc_url: self.json_rpc_url.clone() }
    }
}

impl Contract {
    pub fn copy(&self) -> (r: Contract)
        ensures
            r.name == self.name,
            r.event_topics@ == self.event_topics@,
            r.event_abis@ == self.event_abis@,
    {
        Contract {
            name: self.name.clone(),
            event_topics: copy_strings(&self.event_topics),
            event_abis: copy_strings(&self.event_abis),
        }
    }
}

/// The same fields: contracts alike in name, topics and signatures, everything else equal.
pub open spec fn same_config(a: Config, b: Config) -> bool {
    &&& a.chains@ == b.chains@
    &&& a.contracts@.len() == b.contracts@.len()
    &&& forall|i: int|
        0 <= i < a.contracts@.len() ==> (#[trigger] a.contracts@[i]).name == b.contracts@[i].name
            && a.contracts@[i].event_topics@ == b.contracts@[i].event_topics@
            && a.contracts@[i].event_abis@ == b.contracts@[i].event_abis@
    &&& a.reset_count == b.reset_count
    &&& a.blocks_per_batch == b.blocks_per_batch
    &&& a.handler_interval_ms == b.handler_interval_ms
    &&& a.ingestion_interval_ms == b.ingestion_interval_ms
    &&& a.min_confirmation_count == b.min_confirmation_count
}

impl Config {
    /// A configuration for `chains` with the defaults: no contracts, reset count 0,
    /// 20 blocks per batch, 10 s handler and ingestion intervals.
    pub fn new(chains: Vec<ChainEndpoint>) -> (r: Config)
        ensures
            r.chains@ == chains@,
            r.contracts@.len() == 0,
            r.reset_count == 0,
            r.blocks_per_batch == DEFAULT_BLOCKS_PER_BATCH,
            r.handler_interval_ms == DEFAULT_HANDLER_INTERVAL_MS,
            r.ingestion_interval_ms == DEFAULT_INGESTION_INTERVAL_MS,
            r.min_confirmation_count.value == DEFAULT_MIN_CONFIRMATION_COUNT,
    {
        Config {
            chains,
            contracts: Vec::new(),
            reset_count: 0,
            blocks_per_batch: DEFAULT_BLOCKS_PER_BATCH,
            handler_interval_ms: DEFAULT_HANDLER_INTERVAL_MS,
            ingestion_interval_ms: DEFAULT_INGESTION_INTERVAL_MS,
            min_confirmation_count: MinConfirmationCount::new(DEFAULT_MIN_CONFIRMATION_COUNT),
        }
    }

    /// This configuration with `contract` registered after the others.
    pub fn add_contract(self, contract: Contract) -> (r: Config)
        ensures
            r.contracts@ == self.contracts@.push(contract),
            r.chains@ == self.chains@,
            r.reset_count == self.reset_count,
            r.blocks_per_batch == self.blocks_per_batch,
            r.handler_interval_ms == self.handler_interval_ms,
            r.ingestion_interval_ms == self.ingestion_interval_ms,
            r.min_confirmation_count == self.min_confirmation_count,
    {
        let mut c = self;
        c.contracts.push(contract);
        c
    }

    /// This configuration with reset count `count`.
    pub fn reset(self, count: u8) -> (r: Config)
        ensures
            r.reset_count == count,
            r.contracts@ == self.contracts@,
            r.chains@ == self.chains@,
            r.blocks_per_batch == self.blocks_per_batch,
            r.handler_interval_ms == self.handler_interval_ms,
            r.ingestion_interval_ms == self.ingestion_interval_ms,
            r.min_confirmation_count == self.min_confirmation_count,
    {
        let mut c = self;
        c.reset_count = count;
        c
    }

    /// A copy of this configuration.
    pub fn copy(&self) -> (r: Config)
        ensures
            same_config(r, *self),
    {
        let mut chains: Vec<ChainEndpoint> = Vec::new();
        let mut i: usize = 0;
        while i < self.chains.len()
            invariant
                i <= self.chains.len(),
                chains@ == self.chains@.subrange(0, i as int),
            decreases self.chains.len() - i,
        {
            chains.push(self.chains[i].copy());
            assert(chains@ =~= self.chains@.subrange(0, i as int + 1));
            i = i + 1;
        }
        assert(chains@ =~= self.chains@);
        let mut contracts: Vec<Contract> = Vec::new();
        let mut j: usize = 0;
        while j < self.contracts.len()
            invariant
                j <= self.contracts.len(),
                contracts@.len() == j,
                forall|k: int|
                    0 <= k < j ==> (#[trigger] contracts@[k]).name == self.contracts@[k].name
                        && contracts@[k].event_topics@ == self.contracts@[k].event_topics@
                        && contracts@[k].event_abis@ == self.contracts@[k].event_abis@,
            decreases self.contracts.len() - j,
        {
            contracts.push(self.contracts[j].copy());
            j = j + 1;
        }
        Config {
            chains,
            contracts,
            reset_count: self.reset_count,
            blocks_per_batch: self.blocks_per_batch,
            handler_interval_ms: self.handler_interval_ms,
            ingestion_interval_ms: self.ingestion_interval_ms,
            min_confirmation_count: self.min_confirmation_count,
        }
    }

    /// A copy with `blocks_per_batch` replaced.
    pub fn with_blocks_per_batch(&self, blocks_per_batch: u64) -> (r: Config)
        ensures
            same_config(r, (Config { blocks_per_batch, ..*self })),
    {
        let mut c = self.copy();
        c.blocks_per_batch = blocks_per_batch;
        c
    }

    /// A copy with `handler_interval_ms` replaced.
    pub fn with_handler_interval_ms(&self, handler_interval_ms: u64) -> (r: Config)
        ensures
            same_config(r, (Config { handler_interval_ms, ..*self })),
    {
        let mut c = self.copy();
        c.handler_interval_ms = handler_interval_ms;
        c
    }

    /// A copy with `ingestion_interval_ms` replaced.
    pub fn with_ingestion_interval_ms(&self, ingestion_interval_ms: u64) -> (r: Config)
        ensures
            same_config(r, (Config { ingestion_interval_ms, ..*self })),
    {
        let mut c = self.copy();
        c.ingestion_interval_ms = ingestion_interval_ms;
        c
    }

    /// A copy with the reorg confirmation depth replaced.
    pub fn with_min_confirmation_count(&self, min_confirmation_count: u64) -> (r: Config)
        ensures
            same_config(r, (Config { min_confirmation_count: MinConfirmationCount { value: min_confirmation_count }, ..*self })),
    {
        let mut c = self.copy();
        c.min_confirmation_count = MinConfirmationCount::new(min_confirmation_count);
        c
    }
}

} // verus!
