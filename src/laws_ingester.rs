//! Laws of the ingestion cursor.
use vstd::prelude::*;
use crate::ingester::{filter_for, window_from, window_to, ContractAddress, Execution};

verus! {

/// The ingest cursor after one pass at chain head `current`: a contract address
/// behind the head with a non-empty main window moves just past that window.
pub open spec fn ingest_step(ca: ContractAddress, current: u64, blocks_per_batch: u64) -> int {
    let from = window_from(ca, Execution::Main);
    let to = window_to(ca, Execution::Main, current, blocks_per_batch);
    if current > ca.next_block_number_to_ingest_from && from != to {
        to + 1
    } else {
        ca.next_block_number_to_ingest_from as int
    }
}

/// The ingest cursor after passes at the chain heads `heads`, in order.
pub open spec fn ingest_cursor_after(ca: ContractAddress, heads: Seq<u64>, blocks_per_batch: u64) -> int
    decreases heads.len(),
{
    if heads.len() == 0 {
        ca.next_block_number_to_ingest_from as int
    } else {
        let prev = ingest_cursor_after(ca, heads.drop_last(), blocks_per_batch);
        if 0 <= prev <= u64::MAX {
            ingest_step(
                ContractAddress { next_block_number_to_ingest_from: prev as u64, ..ca },
                heads.last(),
                blocks_per_batch,
            )
        } else {
            prev
        }
    }
}

/// One ingestion pass never moves the ingest cursor back.
pub proof fn law_ingest_step_monotone(ca: ContractAddress, current: u64, blocks_per_batch: u64)
    ensures
        ingest_step(ca, current, blocks_per_batch) >= ca.next_block_number_to_ingest_from,
{
}

/// Across any sequence of ingestion passes the ingest cursor never decreases.
pub proof fn law_ingest_cursor_monotone(
    ca: ContractAddress,
    heads: Seq<u64>,
    blocks_per_batch: u64,
    i: int,
    j: int,
)
    requires
        0 <= i <= j <= heads.len(),
    ensures
        ingest_cursor_after(ca, heads.subrange(0, i), blocks_per_batch) <= ingest_cursor_after(
            ca,
            heads.subrange(0, j),
            blocks_per_batch,
        ),
    decreases j - i,
{
    if i < j {
        law_ingest_cursor_monotone(ca, heads, blocks_per_batch, i, j - 1);
        let s = heads.subrange(0, j);
        assert(s.drop_last() =~= heads.subrange(0, j - 1));
        let prev = ingest_cursor_after(ca, heads.subrange(0, j - 1), blocks_per_batch);
        if 0 <= prev <= u64::MAX {
            law_ingest_step_monotone(
                ContractAddress { next_block_number_to_ingest_from: prev as u64, ..ca },
                s.last(),
                blocks_per_batch,
            );
        }
    }
}

/// An ingestion pass keeps the cursors ordered: `start <= next_handle <= next_ingest`.
pub proof fn law_ingest_step_keeps_cursor_order(
    ca: ContractAddress,
    current: u64,
    blocks_per_batch: u64,
)
    requires
        ca.wf(),
    ensures
        ca.start_block_number <= ca.next_block_number_to_handle_from <= ingest_step(
            ca,
            current,
            blocks_per_batch,
        ),
{
    law_ingest_step_monotone(ca, current, blocks_per_batch);
}

/// The cursor that a stored main-window filter moves its contract address to
/// (`to_block + 1`, see `Filters::next_ingest_cursors`) is the cursor of one
/// ingestion pass, for a contract address behind the head whose window is not empty.
pub proof fn law_main_filter_cursor_is_ingest_step(
    ca: ContractAddress,
    topics: Seq<String>,
    current: u64,
    blocks_per_batch: u64,
)
    requires
        current > ca.next_block_number_to_ingest_from,
        window_from(ca, Execution::Main) != window_to(ca, Execution::Main, current, blocks_per_batch),
    ensures
        filter_for(ca, topics, current, blocks_per_batch, Execution::Main).to_block + 1 == ingest_step(
            ca,
            current,
            blocks_per_batch,
        ),
        ingest_step(ca, current, blocks_per_batch) > ca.next_block_number_to_ingest_from,
{
}

} // verus!
