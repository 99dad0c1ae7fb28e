//! An EVM event indexer's core decisions, verified: the state-migration planner,
//! the ingestion windows and cursors, the reorg diff and repair, and the order in
//! which stored events reach their handlers.
pub mod backoff;
pub mod config;
pub mod events;
pub mod handlers;
pub mod ingester;
pub mod laws_ingester;
pub mod laws_migrations;
pub mod laws_reorg;
pub mod migrations;
pub mod reorg;
pub mod text;
