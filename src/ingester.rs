//! The decisions of an ingestion pass: which contract addresses need work, the
//! block window of each log filter, and where the cursors move afterwards.
use std::collections::HashMap;
use vstd::prelude::*;

verus! {

/// A registered contract: its name, the topics of the events it handles, and
/// the human-readable ABI signatures of those events.
#[derive(Debug)]
pub struct Contract {
    pub name: String,
    pub event_topics: Vec<String>,
    pub event_abis: Vec<String>,
}

/// One contract address on one chain with its cursors.
#[derive(Debug)]
pub struct ContractAddress {
    pub id: i32,
    pub chain_id: u64,
    pub address: String,
    pub contract_name: String,
    pub start_block_number: u64,
    pub next_block_number_to_ingest_from: u64,
    pub next_block_number_to_handle_from: u64,
}

impl ContractAddress {
    /// The cursors are ordered: `start <= next_handle <= next_ingest`.
    pub open spec fn wf(&self) -> bool {
        self.start_block_number <= self.next_block_number_to_handle_from
            <= self.next_block_number_to_ingest_from
    }

    /// A field-for-field copy.
    pub fn copy(&self) -> (r: ContractAddress)
        ensures
            r == *self,
    {
        ContractAddress {
            id: self.id,
            chain_id: self.chain_id,
            address: self.address.clone(),
            contract_name: self.contract_name.clone(),
            start_block_number: self.start_block_number,
            next_block_number_to_ingest_from: self.next_block_number_to_ingest_from,
            next_block_number_to_handle_from: self.next_block_number_to_handle_from,
        }
    }
}

/// How deep behind the ingest cursor reorgs are reconciled.
#[derive(Debug, Clone, Copy, PartialEq, Eq)]
pub struct MinConfirmationCount {
    pub value: u64,
}

impl MinConfirmationCount {
    pub fn new(value: u64) -> (r: MinConfirmationCount)
        ensures
            r.value == value,
    {
        MinConfirmationCount { value }
    }

    /// `block_number - value`, but never below `start_block_number`.
    pub fn deduct_from(&self, block_number: u64, start_block_number: u64) -> (r: u64)
        ensures
            r == spec_max(block_number - self.value, start_block_number as int),
    {
        if block_number >= self.value && block_number - self.value >= start_block_number {
            block_number - self.value
        } else {
            start_block_number
        }
    }
}

pub open spec fn spec_max(a: int, b: int) -> int {
    if a >= b {
        a
    } else {
        b
    }
}

pub open spec fn spec_min(a: int, b: int) -> int {
    if a <= b {
        a
    } else {
        b
    }
}

/// Which window a filter covers: the main ingestion window, or the trailing
/// confirmation window that reorg reconciliation re-reads.
#[derive(Debug, Clone, Copy, PartialEq, Eq)]
pub enum Execution {
    Main,
    Confirmation(MinConfirmationCount),
}

/// A `get_logs` query: one contract address, its topics, an inclusive block window.
#[derive(Debug)]
pub struct Filter {
    pub contract_address_id: i32,
    pub address: String,
    pub topics: Vec<String>,
    pub from_block: u64,
    pub to_block: u64,
}

/// What a filter asks for, as plain values.
pub struct FilterView {
    pub contract_address_id: i32,
    pub address: Seq<char>,
    pub topics: Seq<String>,
    pub from_block: u64,
    pub to_block: u64,
}

impl View for Filter {
    type V = FilterView;

    open spec fn view(&self) -> FilterView {
        FilterView {
            contract_address_id: self.contract_address_id,
            address: self.address@,
            topics: self.topics@,
            from_block: self.from_block,
            to_block: self.to_block,
        }
    }
}

pub open spec fn filter_views(s: Seq<Filter>) -> Seq<FilterView> {
    s.map_values(|f: Filter| f@)
}

/// First block of the window of `ca`.
pub open spec fn window_from(ca: ContractAddress, execution: Execution) -> int {
    match execution {
        Execution::Main => ca.next_block_number_to_ingest_from as int,
        Execution::Confirmation(m) => spec_max(
            ca.next_block_number_to_ingest_from - m.value,
            ca.start_block_number as int,
        ),
    }
}

/// Last block of the window of `ca` (block numbers saturate at `u64::MAX`).
pub open spec fn window_to(
    ca: ContractAddress,
    execution: Execution,
    current_block_number: u64,
    blocks_per_batch: u64,
) -> int {
    let from = window_from(ca, execution);
    match execution {
        Execution::Main => spec_min(from + blocks_per_batch, current_block_number as int),
        Execution::Confirmation(_) => spec_min(from + blocks_per_batch, u64::MAX as int),
    }
}

/// The topics of the first contract named `name`.
pub open spec fn topics_of(contracts: Seq<Contract>, name: Seq<char>) -> Seq<String>
    decreases contracts.len(),
{
    if contracts.len() == 0 {
        Seq::empty()
    } else if contracts[0].name@ == name {
        contracts[0].event_topics@
    } else {
        topics_of(contracts.drop_first(), name)
    }
}

pub open spec fn is_registered(contracts: Seq<Contract>, name: Seq<char>) -> bool {
    exists|i: int| 0 <= i < contracts.len() && #[trigger] contracts[i].name@ == name
}

/// The filter of one contract address for the given window.
pub open spec fn filter_for(
    ca: ContractAddress,
    topics: Seq<String>,
    current_block_number: u64,
    blocks_per_batch: u64,
    execution: Execution,
) -> FilterView {
    FilterView {
        contract_address_id: ca.id,
        address: ca.address@,
        topics: topics,
        from_block: window_from(ca, execution) as u64,
        to_block: window_to(ca, execution, current_block_number, blocks_per_batch) as u64,
    }
}

pub fn copy_strings(v: &Vec<String>) -> (r: Vec<String>)
    ensures
        r@ == v@,
{
    let mut r: Vec<String> = Vec::new();
    let mut i: usize = 0;
    while i < v.len()
        invariant
            i <= v.len(),
            r@ == v@.subrange(0, i as int),
        decreases v.len() - i,
    {
        r.push(v[i].clone());
        assert(r@ =~= v@.subrange(0, i as int + 1));
        i = i + 1;
    }
    assert(r@ =~= v@);
    r
}

/// The topics of the first contract named `name`.
pub fn topics_for(contracts: &Vec<Contract>, name: &String) -> (r: Vec<String>)
    ensures
        r@ == topics_of(contracts@, name@),
{
    let mut i: usize = 0;
    assert(contracts@.subrange(0, contracts@.len() as int) =~= contracts@);
    while i < contracts.len()
        invariant
            i <= contracts.len(),
            topics_of(contracts@, name@) == topics_of(contracts@.subrange(i as int, contracts@.len() as int), name@),
        decreases contracts.len() - i,
    {
        let ghost rest = contracts@.subrange(i as int, contracts@.len() as int);
        assert(rest.drop_first() =~= contracts@.subrange(i as int + 1, contracts@.len() as int));
        if contracts[i].name == *name {
            return copy_strings(&contracts[i].event_topics);
        }
        i = i + 1;
    }
    Vec::new()
}

/// Whether some contract is named `name`.
pub fn is_registered_name(contracts: &Vec<Contract>, name: &String) -> (r: bool)
    ensures
        r == is_registered(contracts@, name@),
{
    let mut i: usize = 0;
    while i < contracts.len()
        invariant
            i <= contracts.len(),
            forall|j: int| 0 <= j < i ==> (#[trigger] contracts@[j]).name@ != name@,
        decreases contracts.len() - i,
    {
        if contracts[i].name == *name {
            return true;
        }
        i = i + 1;
    }
    false
}

impl Filter {
    /// The filter of `contract_address` over its main or confirmation window.
    pub fn new(
        contract_address: &ContractAddress,
        topics: &Vec<String>,
        current_block_number: u64,
        blocks_per_batch: u64,
        execution: &Execution,
    ) -> (r: Filter)
        ensures
            r.contract_address_id == contract_address.id,
            r.address == contract_address.address,
            r.topics@ == topics@,
            r.from_block == window_from(*contract_address, *execution),
            r.to_block == window_to(*contract_address, *execution, current_block_number, blocks_per_batch),
    {
        let from: u64 = match execution {
            Execution::Main => contract_address.next_block_number_to_ingest_from,
            Execution::Confirmation(m) => m.deduct_from(
                contract_address.next_block_number_to_ingest_from,
                contract_address.start_block_number,
            ),
        };
        let limit: u64 = match execution {
            Execution::Main => current_block_number,
            Execution::Confirmation(_) => u64::MAX,
        };
        let to: u64 = if from <= limit && blocks_per_batch <= limit - from {
            from + blocks_per_batch
        } else {
            limit
        };
        Filter {
            contract_address_id: contract_address.id,
            address: contract_address.address.clone(),
            topics: copy_strings(topics),
            from_block: from,
            to_block: to,
        }
    }

    /// Where the ingest cursor of the filter's contract address goes once the
    /// filter's events are stored: just past the window.
    pub fn next_block_number_to_ingest_from(&self) -> (r: u64)
        requires
            self.to_block < u64::MAX,
        ensures
            r == self.to_block + 1,
    {
        self.to_block + 1
    }
}

pub struct EventsIngester;

impl EventsIngester {
    /// The contract addresses whose ingest cursor is behind the chain head, in order.
    pub fn filter_uningested_contract_addresses(
        contract_addresses: &Vec<ContractAddress>,
        current_block_number: u64,
    ) -> (r: Vec<ContractAddress>)
        ensures
            r@ == uningested_upto(contract_addresses@, current_block_number, contract_addresses@.len() as int),
    {
        let mut r: Vec<ContractAddress> = Vec::new();
        let mut i: usize = 0;
        while i < contract_addresses.len()
            invariant
                i <= contract_addresses.len(),
                r@ == uningested_upto(contract_addresses@, current_block_number, i as int),
            decreases contract_addresses.len() - i,
        {
            if current_block_number > contract_addresses[i].next_block_number_to_ingest_from {
                r.push(contract_addresses[i].copy());
            }
            i = i + 1;
        }
        r
    }
}

/// The first `n` contract addresses whose ingest cursor is behind `current`.
pub open spec fn uningested_upto(s: Seq<ContractAddress>, current: u64, n: int) -> Seq<ContractAddress>
    decreases n,
{
    if n <= 0 {
        Seq::empty()
    } else if current > s[n - 1].next_block_number_to_ingest_from {
        uningested_upto(s, current, n - 1).push(s[n - 1])
    } else {
        uningested_upto(s, current, n - 1)
    }
}

/// The filters of the first `n` contract addresses, without empty windows.
pub open spec fn filters_upto(
    cas: Seq<ContractAddress>,
    contracts: Seq<Contract>,
    current: u64,
    bpb: u64,
    execution: Execution,
    n: int,
) -> Seq<FilterView>
    decreases n,
{
    if n <= 0 {
        Seq::empty()
    } else {
        let r = filters_upto(cas, contracts, current, bpb, execution, n - 1);
        let ca = cas[n - 1];
        if window_from(ca, execution) == window_to(ca, execution, current, bpb) {
            r
        } else {
            r.push(filter_for(ca, topics_of(contracts, ca.contract_name@), current, bpb, execution))
        }
    }
}

pub struct Filters;

impl Filters {
    /// One filter per contract address, each with the topics of its contract,
    /// leaving out those whose window starts where it ends.
    pub fn new(
        contract_addresses: &Vec<ContractAddress>,
        contracts: &Vec<Contract>,
        current_block_number: u64,
        blocks_per_batch: u64,
        execution: &Execution,
    ) -> (r: Vec<Filter>)
        requires
            forall|i: int|
                0 <= i < contract_addresses@.len() ==> is_registered(
                    contracts@,
                    #[trigger] contract_addresses@[i].contract_name@,
                ),
        ensures
            filter_views(r@) == filters_upto(contract_addresses@, contracts@, current_block_number, blocks_per_batch, *execution, contract_addresses@.len() as int),
    {
        let mut r: Vec<Filter> = Vec::new();
        let mut i: usize = 0;
        while i < contract_addresses.len()
            invariant
                i <= contract_addresses.len(),
                forall|j: int|
                    0 <= j < contract_addresses@.len() ==> is_registered(
                        contracts@,
                        #[trigger] contract_addresses@[j].contract_name@,
                    ),
                filter_views(r@) == filters_upto(contract_addresses@, contracts@, current_block_number, blocks_per_batch, *execution, i as int),
            decreases contract_addresses.len() - i,
        {
            let ca = &contract_addresses[i];
            let topics = topics_for(contracts, &ca.contract_name);
            let f = Filter::new(ca, &topics, current_block_number, blocks_per_batch, execution);
            let ghost before = r@;
            if f.from_block != f.to_block {
                r.push(f);
                assert(filter_views(r@) =~= filter_views(before).push(r@.last()@));
            }
            i = i + 1;
        }
        r
    }

    /// The ingest cursor each filter's contract address moves to once the
    /// filter's events are stored: `(contract_address_id, to_block + 1)`, in order.
    pub fn next_ingest_cursors(filters: &Vec<Filter>) -> (r: Vec<(i32, u64)>)
        requires
            forall|j: int| 0 <= j < filters@.len() ==> #[trigger] filters@[j].to_block < u64::MAX,
        ensures
            r@.len() == filters@.len(),
            forall|j: int|
                0 <= j < r@.len() ==> #[trigger] r@[j] == (
                    filters@[j].contract_address_id,
                    (filters@[j].to_block + 1) as u64,
                ),
    {
        let mut r: Vec<(i32, u64)> = Vec::new();
        let mut i: usize = 0;
        while i < filters.len()
            invariant
                i <= filters.len(),
                forall|j: int| 0 <= j < filters@.len() ==> #[trigger] filters@[j].to_block < u64::MAX,
                r@.len() == i,
                forall|j: int|
                    0 <= j < i ==> #[trigger] r@[j] == (
                        filters@[j].contract_address_id,
                        (filters@[j].to_block + 1) as u64,
                    ),
            decreases filters.len() - i,
        {
            r.push((filters[i].contract_address_id, filters[i].next_block_number_to_ingest_from()));
            i = i + 1;
        }
        r
    }

    /// The filters grouped by contract address id: each id that occurs maps to
    /// that id's filters, in order.
    pub fn group_by_contract_address_id(filters: &Vec<Filter>) -> (r: HashMap<i32, Vec<Filter>>)
        ensures
            forall|id: i32| #[trigger] r@.contains_key(id) <==> exists|k: int|
                0 <= k < filters@.len() && filters@[k].contract_address_id == id,
            forall|id: i32|
                #[trigger] r@.contains_key(id) ==> filter_views(r@[id]@) == with_id_upto(
                    filter_views(filters@),
                    id,
                    filters@.len() as int,
                ),
    {
        broadcast use vstd::std_specs::hash::group_hash_axioms;

        let ghost fv = filter_views(filters@);
        let mut m: HashMap<i32, Vec<Filter>> = HashMap::new();
        let mut i: usize = 0;
        while i < filters.len()
            invariant
                fv == filter_views(filters@),
                i <= filters.len(),
                forall|id: i32| #[trigger] m@.contains_key(id) <==> exists|k: int|
                    0 <= k < i && fv[k].contract_address_id == id,
                forall|id: i32|
                    #[trigger] m@.contains_key(id) ==> filter_views(m@[id]@) == with_id_upto(
                        fv,
                        id,
                        i as int,
                    ),
            decreases filters.len() - i,
        {
            let id = filters[i].contract_address_id;
            let ghost old_m = m@;
            let mut group: Vec<Filter> = match m.remove(&id) {
                Some(g) => g,
                None => Vec::new(),
            };
            proof {
                if !old_m.contains_key(id) {
                    lemma_with_id_absent(fv, id, i as int);
                    assert(filter_views(group@) =~= with_id_upto(fv, id, i as int));
                }
            }
            let f = filters[i].copy();
            let ghost before = group@;
            group.push(f);
            assert(filter_views(group@) =~= filter_views(before).push(fv[i as int]));
            m.insert(id, group);
            proof {
                assert forall|id2: i32| #[trigger] m@.contains_key(id2) <==> exists|k: int|
                    0 <= k < i + 1 && fv[k].contract_address_id == id2 by {
                    if id2 != id && old_m.contains_key(id2) {
                        let k = choose|k: int| 0 <= k < i && fv[k].contract_address_id == id2;
                    }
                    if exists|k: int| 0 <= k < i + 1 && fv[k].contract_address_id == id2 {
                        let k = choose|k: int| 0 <= k < i + 1 && fv[k].contract_address_id == id2;
                        if k < i {
                            assert(old_m.contains_key(id2));
                        }
                    }
                }
            }
            i = i + 1;
        }
        assert forall|id: i32| #[trigger] m@.contains_key(id) <==> exists|k: int|
            0 <= k < filters@.len() && filters@[k].contract_address_id == id by {
            if m@.contains_key(id) {
                let k = choose|k: int| 0 <= k < filters@.len() && fv[k].contract_address_id == id;
                assert(fv[k] == filters@[k]@);
            }
            if exists|k: int| 0 <= k < filters@.len() && filters@[k].contract_address_id == id {
                let k = choose|k: int| 0 <= k < filters@.len() && filters@[k].contract_address_id == id;
                assert(fv[k] == filters@[k]@);
            }
        }
        m
    }

    /// The filter whose window reaches furthest (the last such one), if any.
    pub fn get_latest(filters: &Vec<Filter>) -> (r: Option<usize>)
        ensures
            filters@.len() == 0 <==> r is None,
            r matches Some(k) ==> k < filters@.len() && (forall|j: int|
                0 <= j < filters@.len() ==> #[trigger] filters@[j].to_block <= filters@[k as int].to_block)
                && (forall|j: int|
                k < j < filters@.len() ==> #[trigger] filters@[j].to_block < filters@[k as int].to_block),
    {
        if filters.len() == 0 {
            return None;
        }
        let mut best: usize = 0;
        let mut i: usize = 1;
        while i < filters.len()
            invariant
                1 <= i <= filters.len(),
                best < i,
                forall|j: int| 0 <= j < i ==> #[trigger] filters@[j].to_block <= filters@[best as int].to_block,
                forall|j: int| best < j < i ==> #[trigger] filters@[j].to_block < filters@[best as int].to_block,
            decreases filters.len() - i,
        {
            if filters[i].to_block >= filters[best].to_block {
                best = i;
            }
            i = i + 1;
        }
        Some(best)
    }
}

/// What the repository reports when an operation fails.
#[derive(Debug)]
pub enum RepoError {
    NotConnected,
    Unknown(String),
}

/// Why an ingestion pass was abandoned.
#[derive(Debug)]
pub enum EventsIngesterError {
    RepoConnectionError,
    GenericError(String),
}

impl From<RepoError> for EventsIngesterError {
    fn from(value: RepoError) -> (r: EventsIngesterError) {
        match value {
            RepoError::NotConnected => EventsIngesterError::RepoConnectionError,
            RepoError::Unknown(error) => EventsIngesterError::GenericError(error),
        }
    }
}

impl vstd::std_specs::convert::FromSpecImpl<RepoError> for EventsIngesterError {
    open spec fn obeys_from_spec() -> bool {
        true
    }

    open spec fn from_spec(v: RepoError) -> EventsIngesterError {
        match v {
            RepoError::NotConnected => EventsIngesterError::RepoConnectionError,
            RepoError::Unknown(error) => EventsIngesterError::GenericError(error),
        }
    }
}

/// The transaction and block of one fetched log.
#[derive(Debug)]
pub struct LogBlockRef {
    pub transaction_hash: String,
    pub block_number: u64,
}

/// Among the first `n` logs, those whose transaction hash no earlier log has, in order.
pub open spec fn first_per_transaction_upto(s: Seq<LogBlockRef>, n: int) -> Seq<LogBlockRef>
    decreases n,
{
    if n <= 0 {
        Seq::empty()
    } else if exists|j: int| 0 <= j < n - 1 && (#[trigger] s[j]).transaction_hash@ == s[n - 1].transaction_hash@ {
        first_per_transaction_upto(s, n - 1)
    } else {
        first_per_transaction_upto(s, n - 1).push(s[n - 1])
    }
}

/// The blocks to fetch for a batch of logs: one per transaction hash, taken from
/// the first log of that transaction, in order.
pub fn blocks_to_fetch(logs: &Vec<LogBlockRef>) -> (r: Vec<LogBlockRef>)
    ensures
        r@.len() == first_per_transaction_upto(logs@, logs@.len() as int).len(),
        forall|k: int| 0 <= k < r@.len() ==> {
            let a = #[trigger] r@[k];
            let b = first_per_transaction_upto(logs@, logs@.len() as int)[k];
            a.transaction_hash@ == b.transaction_hash@ && a.block_number == b.block_number
        },
{
    let mut r: Vec<LogBlockRef> = Vec::new();
    let mut i: usize = 0;
    while i < logs.len()
        invariant
            i <= logs.len(),
            r@.len() == first_per_transaction_upto(logs@, i as int).len(),
            forall|k: int| 0 <= k < r@.len() ==> {
                let a = #[trigger] r@[k];
                let b = first_per_transaction_upto(logs@, i as int)[k];
                a.transaction_hash@ == b.transaction_hash@ && a.block_number == b.block_number
            },
        decreases logs.len() - i,
    {
        let mut seen = false;
        let mut j: usize = 0;
        while j < i
            invariant
                j <= i < logs.len(),
                seen == exists|jj: int| 0 <= jj < j && (#[trigger] logs@[jj]).transaction_hash@ == logs@[i as int].transaction_hash@,
            decreases i - j,
        {
            if logs[j].transaction_hash == logs[i].transaction_hash {
                seen = true;
            }
            j = j + 1;
        }
        if !seen {
            r.push(LogBlockRef { transaction_hash: logs[i].transaction_hash.clone(), block_number: logs[i].block_number });
        }
        i = i + 1;
    }
    r
}

/// The filters among the first `n` whose contract address id is `id`, in order.
pub open spec fn with_id_upto(s: Seq<FilterView>, id: i32, n: int) -> Seq<FilterView>
    decreases n,
{
    if n <= 0 {
        Seq::empty()
    } else if s[n - 1].contract_address_id == id {
        with_id_upto(s, id, n - 1).push(s[n - 1])
    } else {
        with_id_upto(s, id, n - 1)
    }
}

proof fn lemma_with_id_absent(s: Seq<FilterView>, id: i32, n: int)
    requires
        0 <= n <= s.len(),
        forall|k: int| 0 <= k < n ==> #[trigger] s[k].contract_address_id != id,
    ensures
        with_id_upto(s, id, n).len() == 0,
    decreases n,
{
    if n > 0 {
        lemma_with_id_absent(s, id, n - 1);
    }
}

impl Filter {
    /// A field-for-field copy.
    pub fn copy(&self) -> (r: Filter)
        ensures
            r@ == self@,
    {
        Filter {
            contract_address_id: self.contract_address_id,
            address: self.address.clone(),
            topics: copy_strings(&self.topics),
            from_block: self.from_block,
            to_block: self.to_block,
        }
    }
}

} // verus!
