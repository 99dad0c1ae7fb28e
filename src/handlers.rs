//! The decisions of a handler pass: which events of a page reach the handlers,
//! in which order, which handler takes each, and where the handle cursor goes.
use vstd::prelude::*;
use crate::events::Event;
use crate::ingester::ContractAddress;

verus! {

broadcast use vstd::seq_lib::group_to_multiset_ensures;

/// `a` comes no later than `b` in `(block_number, log_index)` order.
pub open spec fn key_le(a: Event, b: Event) -> bool {
    a.block_number < b.block_number || (a.block_number == b.block_number && a.log_index
        <= b.log_index)
}

/// The events are in ascending `(block_number, log_index)` order.
pub open spec fn sorted_by_key(s: Seq<Event>) -> bool {
    forall|i: int, j: int| 0 <= i < j < s.len() ==> key_le(#[trigger] s[i], #[trigger] s[j])
}

/// The events among the first `n` of the page that belong to `address` and are not removed.
pub open spec fn handleable_upto(s: Seq<Event>, address: Seq<char>, n: int) -> Seq<Event>
    decreases n,
{
    if n <= 0 {
        Seq::empty()
    } else if s[n - 1].contract_address@ == address && !s[n - 1].removed {
        handleable_upto(s, address, n - 1).push(s[n - 1])
    } else {
        handleable_upto(s, address, n - 1)
    }
}

/// What one page of a handler pass does.
#[derive(Debug)]
pub struct HandlePage {
    /// The events to hand to handlers, in this order.
    pub events: Vec<Event>,
    /// The new handle cursor, when the page has events to handle.
    pub next_block_number_to_handle_from: Option<u64>,
}

/// `idx` places each event of `r` at a distinct position of `s`, and events with
/// equal keys keep the order they have in `s`.
pub open spec fn stable_placement(r: Seq<Event>, s: Seq<Event>, idx: Seq<int>) -> bool {
    &&& idx.len() == r.len()
    &&& forall|t: int| 0 <= t < r.len() ==> 0 <= #[trigger] idx[t] < s.len() && r[t] == s[idx[t]]
    &&& forall|t1: int, t2: int| 0 <= t1 < t2 < r.len() ==> #[trigger] idx[t1] != #[trigger] idx[t2]
    &&& forall|t1: int, t2: int|
        0 <= t1 < t2 < r.len() && key_le(#[trigger] r[t2], #[trigger] r[t1]) ==> idx[t1] < idx[t2]
}

/// The same events in ascending `(block_number, log_index)` order; events with
/// equal keys keep their order.
pub fn sort_by_block_and_log_index(events: Vec<Event>) -> (r: Vec<Event>)
    ensures
        sorted_by_key(r@),
        r@.to_multiset() == events@.to_multiset(),
        exists|idx: Seq<int>| stable_placement(r@, events@, idx),
{
    let ghost mut idx: Seq<int> = Seq::empty();
    let mut r: Vec<Event> = Vec::new();
    let mut i: usize = 0;
    while i < events.len()
        invariant
            i <= events.len(),
            sorted_by_key(r@),
            r@.to_multiset() == events@.subrange(0, i as int).to_multiset(),
            stable_placement(r@, events@, idx),
            forall|t: int| 0 <= t < idx.len() ==> #[trigger] idx[t] < i,
        decreases events.len() - i,
    {
        let e = events[i].copy();
        let mut pos: usize = r.len();
        while pos > 0 && !(r[pos - 1].block_number < e.block_number || (r[pos - 1].block_number
            == e.block_number && r[pos - 1].log_index <= e.log_index))
            invariant
                pos <= r.len(),
                forall|j: int| pos <= j < r@.len() ==> !key_le(#[trigger] r@[j], e),
            decreases pos,
        {
            pos = pos - 1;
        }
        proof {
            assert forall|j: int| 0 <= j < pos implies key_le(#[trigger] r@[j], e) by {
                if pos > 0 {
                    assert(key_le(r@[j], r@[pos - 1]));
                }
            }
        }
        let ghost before = r@;
        let ghost old_idx = idx;
        r.insert(pos, e);
        proof {
            idx = old_idx.insert(pos as int, i as int);
            assert forall|t: int| 0 <= t < r@.len() implies 0 <= #[trigger] idx[t] < events@.len()
                && r@[t] == events@[idx[t]] by {
                if t < pos {
                    assert(idx[t] == old_idx[t] && r@[t] == before[t]);
                } else if t > pos {
                    assert(idx[t] == old_idx[t - 1] && r@[t] == before[t - 1]);
                }
            }
            assert forall|t: int| 0 <= t < idx.len() implies #[trigger] idx[t] < i + 1 by {
                if t < pos {
                    assert(idx[t] == old_idx[t]);
                } else if t > pos {
                    assert(idx[t] == old_idx[t - 1]);
                }
            }
            assert forall|t1: int, t2: int| 0 <= t1 < t2 < r@.len() implies #[trigger] idx[t1]
                != #[trigger] idx[t2] by {
                let o1 = if t1 < pos { t1 } else { t1 - 1 };
                let o2 = if t2 < pos { t2 } else { t2 - 1 };
                if t1 != pos && t2 != pos {
                    assert(idx[t1] == old_idx[o1] && idx[t2] == old_idx[o2]);
                } else if t1 == pos {
                    assert(idx[t2] == old_idx[o2]);
                } else {
                    assert(idx[t1] == old_idx[o1]);
                }
            }
            assert forall|t1: int, t2: int|
                0 <= t1 < t2 < r@.len() && key_le(#[trigger] r@[t2], #[trigger] r@[t1]) implies idx[t1]
                < idx[t2] by {
                let o1 = if t1 < pos { t1 } else { t1 - 1 };
                let o2 = if t2 < pos { t2 } else { t2 - 1 };
                if t1 != pos && t2 != pos {
                    assert(idx[t1] == old_idx[o1] && idx[t2] == old_idx[o2]);
                    assert(r@[t1] == before[o1] && r@[t2] == before[o2]);
                } else if t1 == pos {
                    assert(r@[t2] == before[o2]);
                    assert(!key_le(before[o2], e));
                    assert(key_le(e, before[o2]));
                } else {
                    assert(idx[t1] == old_idx[o1]);
                }
            }
        }
        proof {
            assert(r@ == before.insert(pos as int, e));
            vstd::seq_lib::to_multiset_insert(before, pos as int, e);
            assert(events@.subrange(0, i as int + 1) =~= events@.subrange(0, i as int).push(events@[i as int]));
            assert forall|a: int, b: int| 0 <= a < b < r@.len() implies key_le(#[trigger] r@[a], #[trigger] r@[b]) by {
                if b < pos {
                    assert(r@[a] == before[a] && r@[b] == before[b]);
                } else if b == pos {
                    assert(r@[a] == before[a]);
                } else if a < pos {
                    assert(r@[a] == before[a] && r@[b] == before[b - 1]);
                    assert(key_le(before[a], e));
                    assert(!key_le(before[b - 1], e));
                } else if a == pos {
                    assert(r@[b] == before[b - 1]);
                    assert(!key_le(before[b - 1], e));
                } else {
                    assert(r@[a] == before[a - 1] && r@[b] == before[b - 1]);
                }
            }
        }
        i = i + 1;
    }
    assert(events@.subrange(0, events@.len() as int) =~= events@);
    assert(stable_placement(r@, events@, idx));
    r
}

pub struct HandleEvents;

impl HandleEvents {
    /// Plans one page of events streamed for `contract_address` (all from its handle
    /// cursor on): the events of that address that are not removed, in
    /// `(block_number, log_index)` order, and the cursor just past the last one.
    pub fn plan_page(contract_address: &ContractAddress, page: Vec<Event>) -> (r: HandlePage)
        requires
            forall|i: int|
                0 <= i < page@.len() ==> contract_address.next_block_number_to_handle_from
                    <= #[trigger] page@[i].block_number < u64::MAX,
        ensures
            sorted_by_key(r.events@),
            r.events@.to_multiset() == handleable_upto(
                page@,
                contract_address.address@,
                page@.len() as int,
            ).to_multiset(),
            exists|idx: Seq<int>|
                stable_placement(
                    r.events@,
                    handleable_upto(page@, contract_address.address@, page@.len() as int),
                    idx,
                ),
            r.events@.len() == 0 ==> r.next_block_number_to_handle_from is None,
            r.events@.len() > 0 ==> r.next_block_number_to_handle_from == Some(
                (r.events@.last().block_number + 1) as u64,
            ),
            r.next_block_number_to_handle_from matches Some(n) ==> n
                > contract_address.next_block_number_to_handle_from,
    {
        let mut kept: Vec<Event> = Vec::new();
        let mut i: usize = 0;
        while i < page.len()
            invariant
                i <= page.len(),
                kept@ == handleable_upto(page@, contract_address.address@, i as int),
                forall|j: int| 0 <= j < kept@.len() ==> contract_address.next_block_number_to_handle_from
                    <= #[trigger] kept@[j].block_number < u64::MAX,
                forall|j: int|
                    0 <= j < page@.len() ==> contract_address.next_block_number_to_handle_from
                        <= #[trigger] page@[j].block_number < u64::MAX,
            decreases page.len() - i,
        {
            if page[i].match_contract_address(&contract_address.address) && page[i].not_removed() {
                kept.push(page[i].copy());
            }
            i = i + 1;
        }
        let ghost kept_seq = kept@;
        let events = sort_by_block_and_log_index(kept);
        if events.len() == 0 {
            HandlePage { events, next_block_number_to_handle_from: None }
        } else {
            let last = events.len() - 1;
            proof {
                let e = events@[last as int];
                assert(events@.to_multiset().count(e) > 0);
                assert(kept_seq.to_multiset().count(e) > 0);
                assert(kept_seq.contains(e));
            }
            let next = events[last].block_number + 1;
            HandlePage { events, next_block_number_to_handle_from: Some(next) }
        }
    }

    /// The position of the handler bound to event signature `abi`, if any.
    pub fn find_handler(handler_abis: &Vec<String>, abi: &String) -> (r: Option<usize>)
        ensures
            match r {
                Some(k) => k < handler_abis@.len() && handler_abis@[k as int]@ == abi@ && forall|j: int|
                    0 <= j < k ==> (#[trigger] handler_abis@[j])@ != abi@,
                None => forall|j: int| 0 <= j < handler_abis@.len() ==> (#[trigger] handler_abis@[j])@ != abi@,
            },
    {
        let mut i: usize = 0;
        while i < handler_abis.len()
            invariant
                i <= handler_abis.len(),
                forall|j: int| 0 <= j < i ==> (#[trigger] handler_abis@[j])@ != abi@,
            decreases handler_abis.len() - i,
        {
            if handler_abis[i] == *abi {
                return Some(i);
            }
            i = i + 1;
        }
        None
    }
}

} // verus!
