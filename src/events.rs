//! Durable records of emitted logs.
use vstd::prelude::*;

verus! {

/// One emitted log as the store keeps it. `id` is a surrogate key (a UUID as an
/// integer); JSON payloads are held as their text.
#[derive(Debug)]
pub struct Event {
    pub id: u128,
    pub contract_address: String,
    pub contract_name: String,
    pub abi: String,
    pub log_params: String,
    pub parameters: String,
    pub topics: String,
    pub block_hash: String,
    pub block_number: u64,
    pub transaction_hash: String,
    pub transaction_index: u64,
    pub log_index: u64,
    pub removed: bool,
    pub inserted_at: i64,
}

/// Everything an event says about the chain: all fields but the surrogate `id`
/// and the store's `inserted_at`.
pub struct EventPayload {
    pub contract_address: Seq<char>,
    pub contract_name: Seq<char>,
    pub abi: Seq<char>,
    pub log_params: Seq<char>,
    pub parameters: Seq<char>,
    pub topics: Seq<char>,
    pub block_hash: Seq<char>,
    pub block_number: u64,
    pub transaction_hash: Seq<char>,
    pub transaction_index: u64,
    pub log_index: u64,
    pub removed: bool,
}

impl Event {
    pub open spec fn payload(&self) -> EventPayload {
        EventPayload {
            contract_address: self.contract_address@,
            contract_name: self.contract_name@,
            abi: self.abi@,
            log_params: self.log_params@,
            parameters: self.parameters@,
            topics: self.topics@,
            block_hash: self.block_hash@,
            block_number: self.block_number,
            transaction_hash: self.transaction_hash@,
            transaction_index: self.transaction_index,
            log_index: self.log_index,
            removed: self.removed,
        }
    }

    /// Structural equality: the two events record the same log in the same block.
    pub fn same_payload(&self, other: &Event) -> (r: bool)
        ensures
            r == (self.payload() == other.payload()),
    {
        self.block_number == other.block_number && self.transaction_index == other.transaction_index
            && self.log_index == other.log_index && self.removed == other.removed
            && self.contract_address == other.contract_address && self.contract_name
            == other.contract_name && self.abi == other.abi && self.log_params == other.log_params
            && self.parameters == other.parameters && self.topics == other.topics
            && self.block_hash == other.block_hash && self.transaction_hash
            == other.transaction_hash
    }

    /// A field-for-field copy.
    pub fn copy(&self) -> (r: Event)
        ensures
            r == *self,
    {
        Event {
            id: self.id,
            contract_address: self.contract_address.clone(),
            contract_name: self.contract_name.clone(),
            abi: self.abi.clone(),
            log_params: self.log_params.clone(),
            parameters: self.parameters.clone(),
            topics: self.topics.clone(),
            block_hash: self.block_hash.clone(),
            block_number: self.block_number,
            transaction_hash: self.transaction_hash.clone(),
            transaction_index: self.transaction_index,
            log_index: self.log_index,
            removed: self.removed,
            inserted_at: self.inserted_at,
        }
    }

    /// Whether the event was emitted by `address`.
    pub fn match_contract_address(&self, address: &String) -> (r: bool)
        ensures
            r == (self.contract_address@ == address@),
    {
        self.contract_address == *address
    }

    /// Whether the event is still on the canonical chain.
    pub fn not_removed(&self) -> (r: bool)
        ensures
            r == !self.removed,
    {
        !self.removed
    }
}

/// Some event of `s` has the payload of `e`.
pub open spec fn has_payload(s: Seq<Event>, e: Event) -> bool {
    exists|i: int| 0 <= i < s.len() && #[trigger] s[i].payload() == e.payload()
}

/// The events among the first `n` of `a` whose payload `b` does not hold, in order.
pub open spec fn minus_upto(a: Seq<Event>, b: Seq<Event>, n: int) -> Seq<Event>
    decreases n,
{
    if n <= 0 {
        Seq::empty()
    } else if has_payload(b, a[n - 1]) {
        minus_upto(a, b, n - 1)
    } else {
        minus_upto(a, b, n - 1).push(a[n - 1])
    }
}

/// The events of `a` whose payload `b` does not hold, in order.
pub open spec fn minus(a: Seq<Event>, b: Seq<Event>) -> Seq<Event> {
    minus_upto(a, b, a.len() as int)
}

/// Whether some event of `b` has the payload of `e`.
pub fn has_payload_exec(b: &Vec<Event>, e: &Event) -> (r: bool)
    ensures
        r == has_payload(b@, *e),
{
    let mut i: usize = 0;
    while i < b.len()
        invariant
            i <= b.len(),
            forall|j: int| 0 <= j < i ==> #[trigger] b@[j].payload() != e.payload(),
        decreases b.len() - i,
    {
        if b[i].same_payload(e) {
            return true;
        }
        i = i + 1;
    }
    false
}

/// The events of `a` whose payload `b` does not hold, in order.
pub fn minus_exec(a: &Vec<Event>, b: &Vec<Event>) -> (r: Vec<Event>)
    ensures
        r@ == minus(a@, b@),
{
    let mut r: Vec<Event> = Vec::new();
    let mut i: usize = 0;
    while i < a.len()
        invariant
            i <= a.len(),
            r@ == minus_upto(a@, b@, i as int),
        decreases a.len() - i,
    {
        if !has_payload_exec(b, &a[i]) {
            r.push(a[i].copy());
        }
        i = i + 1;
    }
    r
}

} // verus!
