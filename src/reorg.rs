//! Reorg reconciliation: the diff between what the store holds for the
//! confirmation window and what the chain says now, and the repair it calls for.
use vstd::prelude::*;
use crate::events::{minus, minus_exec, Event};

verus! {

/// A marker that a chain reorganisation touched blocks from `block_number` on.
#[derive(Debug, Clone, Copy, PartialEq, Eq)]
pub struct UnsavedReorgedBlock {
    pub chain_id: u64,
    pub block_number: u64,
}

impl UnsavedReorgedBlock {
    pub fn new(block_number: u64, chain_id: u64) -> (r: UnsavedReorgedBlock)
        ensures
            r.block_number == block_number,
            r.chain_id == chain_id,
    {
        UnsavedReorgedBlock { chain_id, block_number }
    }
}

/// The writes that bring the store in line with the chain, to run in one
/// transaction: record the marker, delete the stale events by id, insert the new ones.
#[derive(Debug)]
pub struct ReorgRepair {
    pub reorged_block: UnsavedReorgedBlock,
    pub removed_event_ids: Vec<u128>,
    pub added_events: Vec<Event>,
}

/// `b` is the smallest block number among the events of `a` and `r`.
pub open spec fn is_earliest(a: Seq<Event>, r: Seq<Event>, b: u64) -> bool {
    &&& (exists|i: int| 0 <= i < a.len() && #[trigger] a[i].block_number == b) || (exists|i: int|
        0 <= i < r.len() && #[trigger] r[i].block_number == b)
    &&& forall|i: int| 0 <= i < a.len() ==> b <= #[trigger] a[i].block_number
    &&& forall|i: int| 0 <= i < r.len() ==> b <= #[trigger] r[i].block_number
}

/// The ids of the events, in order.
pub open spec fn ids_of(s: Seq<Event>) -> Seq<u128> {
    s.map_values(|e: Event| e.id)
}

pub struct MaybeBacktrackIngestedEvents;

impl MaybeBacktrackIngestedEvents {
    /// `added` holds the live events that the store lacks, `removed` the stored
    /// events that the chain no longer has (both by structural equality, in order);
    /// `None` when both are empty.
    pub fn get_json_rpc_added_and_removed_events(
        already_ingested_events: &Vec<Event>,
        json_rpc_events: &Vec<Event>,
    ) -> (r: Option<(Vec<Event>, Vec<Event>)>)
        ensures
            match r {
                None => minus(json_rpc_events@, already_ingested_events@).len() == 0 && minus(
                    already_ingested_events@,
                    json_rpc_events@,
                ).len() == 0,
                Some((added, removed)) => added@ == minus(
                    json_rpc_events@,
                    already_ingested_events@,
                ) && removed@ == minus(already_ingested_events@, json_rpc_events@) && (
                added@.len() > 0 || removed@.len() > 0),
            },
    {
        let added = minus_exec(json_rpc_events, already_ingested_events);
        let removed = minus_exec(already_ingested_events, json_rpc_events);
        if added.len() == 0 && removed.len() == 0 {
            None
        } else {
            Some((added, removed))
        }
    }

    /// The smallest block number among the added and removed events.
    pub fn get_earliest_block_number(added_events: &Vec<Event>, removed_events: &Vec<Event>) -> (r:
        u64)
        requires
            added_events@.len() > 0 || removed_events@.len() > 0,
        ensures
            is_earliest(added_events@, removed_events@, r),
    {
        let mut best: u64 = if added_events.len() > 0 {
            added_events[0].block_number
        } else {
            removed_events[0].block_number
        };
        let mut i: usize = 0;
        while i < added_events.len()
            invariant
                i <= added_events.len(),
                added_events@.len() > 0 || removed_events@.len() > 0,
                (exists|j: int| 0 <= j < added_events@.len() && #[trigger] added_events@[j].block_number == best)
                    || (exists|j: int| 0 <= j < removed_events@.len() && #[trigger] removed_events@[j].block_number == best),
                forall|j: int| 0 <= j < i ==> best <= #[trigger] added_events@[j].block_number,
                added_events@.len() == 0 ==> best == removed_events@[0].block_number,
            decreases added_events.len() - i,
        {
            if added_events[i].block_number < best {
                best = added_events[i].block_number;
            }
            i = i + 1;
        }
        let mut k: usize = 0;
        while k < removed_events.len()
            invariant
                k <= removed_events.len(),
                (exists|j: int| 0 <= j < added_events@.len() && #[trigger] added_events@[j].block_number == best)
                    || (exists|j: int| 0 <= j < removed_events@.len() && #[trigger] removed_events@[j].block_number == best),
                forall|j: int| 0 <= j < added_events@.len() ==> best <= #[trigger] added_events@[j].block_number,
                forall|j: int| 0 <= j < k ==> best <= #[trigger] removed_events@[j].block_number,
            decreases removed_events.len() - k,
        {
            if removed_events[k].block_number < best {
                best = removed_events[k].block_number;
            }
            k = k + 1;
        }
        best
    }

    /// The repair that the diff between the stored and the live events of a
    /// confirmation window calls for on `chain_id`; `None` when they agree.
    pub fn plan_repair(chain_id: u64, already_ingested_events: &Vec<Event>, json_rpc_events: &Vec<
        Event,
    >) -> (r: Option<ReorgRepair>)
        ensures
            match r {
                None => minus(json_rpc_events@, already_ingested_events@).len() == 0 && minus(
                    already_ingested_events@,
                    json_rpc_events@,
                ).len() == 0,
                Some(repair) => {
                    let added = minus(json_rpc_events@, already_ingested_events@);
                    let removed = minus(already_ingested_events@, json_rpc_events@);
                    &&& added.len() > 0 || removed.len() > 0
                    &&& repair.added_events@ == added
                    &&& repair.removed_event_ids@ == ids_of(removed)
                    &&& repair.reorged_block.chain_id == chain_id
                    &&& is_earliest(added, removed, repair.reorged_block.block_number)
                },
            },
    {
        match Self::get_json_rpc_added_and_removed_events(already_ingested_events, json_rpc_events) {
            None => None,
            Some((added_events, removed_events)) => {
                let earliest = Self::get_earliest_block_number(&added_events, &removed_events);
                let mut ids: Vec<u128> = Vec::new();
                let mut i: usize = 0;
                while i < removed_events.len()
                    invariant
                        i <= removed_events.len(),
                        ids@ == ids_of(removed_events@).subrange(0, i as int),
                    decreases removed_events.len() - i,
                {
                    ids.push(removed_events[i].id);
                    assert(ids@ =~= ids_of(removed_events@).subrange(0, i as int + 1));
                    i = i + 1;
                }
                assert(ids@ =~= ids_of(removed_events@));
                Some(
                    ReorgRepair {
                        reorged_block: UnsavedReorgedBlock::new(earliest, chain_id),
                        removed_event_ids: ids,
                        added_events,
                    },
                )
            },
        }
    }
}

} // verus!
