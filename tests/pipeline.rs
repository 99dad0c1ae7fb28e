use chaindexing::backoff::backoff_secs;
use chaindexing::config::{ChainEndpoint, Config};
use chaindexing::events::Event;
use chaindexing::handlers::{sort_by_block_and_log_index, HandleEvents};
use chaindexing::ingester::{
    blocks_to_fetch, is_registered_name, Contract, ContractAddress, EventsIngester,
    EventsIngesterError, Execution, Filter, Filters, LogBlockRef, MinConfirmationCount, RepoError,
};
use chaindexing::reorg::MaybeBacktrackIngestedEvents;

fn contract_address(next_ingest: u64) -> ContractAddress {
    ContractAddress {
        id: 1,
        chain_id: 1,
        address: "0xabc".to_string(),
        contract_name: "Nft".to_string(),
        start_block_number: 50,
        next_block_number_to_ingest_from: next_ingest,
        next_block_number_to_handle_from: 50,
    }
}

fn contracts() -> Vec<Contract> {
    vec![Contract {
        name: "Nft".to_string(),
        event_topics: vec!["0xtopic".to_string()],
        event_abis: vec!["event Transfer(address indexed from, address indexed to, uint256 indexed tokenId)".to_string()],
    }]
}

fn event(id: u128, block_number: u64, log_index: u64, block_hash: &str) -> Event {
    Event {
        id,
        contract_address: "0xabc".to_string(),
        contract_name: "Nft".to_string(),
        abi: "Transfer(address,address,uint256)".to_string(),
        log_params: "{}".to_string(),
        parameters: "{}".to_string(),
        topics: "[]".to_string(),
        block_hash: block_hash.to_string(),
        block_number,
        transaction_hash: format!("0xtx{block_number}"),
        transaction_index: 0,
        log_index,
        removed: false,
        inserted_at: 0,
    }
}

#[test]
fn ingest_batch_window_is_bounded_by_batch_size() {
    let filters = Filters::new(&vec![contract_address(100)], &contracts(), 150, 20, &Execution::Main);
    assert_eq!(filters.len(), 1);
    assert_eq!((filters[0].from_block, filters[0].to_block), (100, 120));
    assert_eq!(filters[0].topics, vec!["0xtopic".to_string()]);
    assert_eq!(filters[0].next_block_number_to_ingest_from(), 121);
}

#[test]
fn ingest_window_saturates_at_chain_head() {
    let filters = Filters::new(&vec![contract_address(100)], &contracts(), 105, 20, &Execution::Main);
    assert_eq!((filters[0].from_block, filters[0].to_block), (100, 105));
    assert_eq!(filters[0].next_block_number_to_ingest_from(), 106);
}

#[test]
fn empty_windows_are_dropped() {
    let filters = Filters::new(&vec![contract_address(100)], &contracts(), 100, 20, &Execution::Main);
    assert!(filters.is_empty());
    let filters = Filters::new(&vec![contract_address(100)], &contracts(), 150, 0, &Execution::Main);
    assert!(filters.is_empty());
}

#[test]
fn confirmation_window_trails_ingest_cursor_and_clamps_at_start() {
    let execution = Execution::Confirmation(MinConfirmationCount::new(10));
    let f = Filter::new(&contract_address(100), &vec![], 150, 20, &execution);
    assert_eq!((f.from_block, f.to_block), (90, 110));
    let deep = Execution::Confirmation(MinConfirmationCount::new(80));
    let f = Filter::new(&contract_address(100), &vec![], 150, 20, &deep);
    assert_eq!((f.from_block, f.to_block), (50, 70));
    assert_eq!(MinConfirmationCount::new(500).deduct_from(100, 0), 0);
}

#[test]
fn only_addresses_behind_the_head_are_ingested() {
    let cas = vec![contract_address(100), contract_address(150), contract_address(151)];
    let behind = EventsIngester::filter_uningested_contract_addresses(&cas, 150);
    assert_eq!(behind.len(), 1);
    assert_eq!(behind[0].next_block_number_to_ingest_from, 100);
}

#[test]
fn latest_filter_reaches_furthest() {
    let mut a = Filter::new(&contract_address(100), &vec![], 150, 20, &Execution::Main);
    a.contract_address_id = 7;
    let b = Filter::new(&contract_address(120), &vec![], 150, 20, &Execution::Main);
    let filters = vec![a, b];
    assert_eq!(Filters::get_latest(&filters), Some(1));
    assert_eq!(Filters::get_latest(&vec![]), None);
}

#[test]
fn reorg_replaces_event_of_changed_block() {
    let already = vec![event(1, 110, 0, "A"), event(2, 111, 0, "C")];
    let live = vec![event(3, 110, 0, "B"), event(4, 111, 0, "C")];
    let (added, removed) =
        MaybeBacktrackIngestedEvents::get_json_rpc_added_and_removed_events(&already, &live).unwrap();
    assert_eq!(added.len(), 1);
    assert_eq!(added[0].block_hash, "B");
    assert_eq!(removed.len(), 1);
    assert_eq!(removed[0].id, 1);
    let repair = MaybeBacktrackIngestedEvents::plan_repair(5, &already, &live).unwrap();
    assert_eq!(repair.reorged_block.chain_id, 5);
    assert_eq!(repair.reorged_block.block_number, 110);
    assert_eq!(repair.removed_event_ids, vec![1]);
    assert_eq!(repair.added_events.len(), 1);
    assert_eq!(repair.added_events[0].id, 3);
}

#[test]
fn reorg_of_unchanged_window_writes_nothing() {
    let already = vec![event(1, 110, 0, "A"), event(2, 111, 0, "C")];
    let live = vec![event(9, 111, 0, "C"), event(8, 110, 0, "A")];
    assert!(MaybeBacktrackIngestedEvents::plan_repair(5, &already, &live).is_none());
    assert!(MaybeBacktrackIngestedEvents::get_json_rpc_added_and_removed_events(&already, &live).is_none());
}

#[test]
fn reorg_twice_finds_nothing_the_second_time() {
    let already = vec![event(1, 110, 0, "A"), event(2, 111, 0, "C")];
    let live = vec![event(3, 110, 0, "B"), event(4, 111, 0, "C")];
    let repair = MaybeBacktrackIngestedEvents::plan_repair(5, &already, &live).unwrap();
    let mut store: Vec<Event> =
        already.into_iter().filter(|e| !repair.removed_event_ids.contains(&e.id)).collect();
    store.extend(repair.added_events);
    assert!(MaybeBacktrackIngestedEvents::plan_repair(5, &store, &live).is_none());
}

#[test]
fn earliest_block_comes_from_either_side() {
    let only_removed = vec![event(1, 130, 0, "A"), event(2, 120, 0, "A")];
    assert_eq!(MaybeBacktrackIngestedEvents::get_earliest_block_number(&vec![], &only_removed), 120);
    let added = vec![event(3, 118, 0, "B")];
    assert_eq!(MaybeBacktrackIngestedEvents::get_earliest_block_number(&added, &only_removed), 118);
}

#[test]
fn handler_order_is_block_then_log_index() {
    let page = vec![
        event(1, 12, 3, "A"),
        event(2, 11, 5, "A"),
        event(3, 12, 1, "A"),
        event(4, 11, 2, "A"),
    ];
    let sorted = sort_by_block_and_log_index(page);
    let keys: Vec<(u64, u64)> = sorted.iter().map(|e| (e.block_number, e.log_index)).collect();
    assert_eq!(keys, vec![(11, 2), (11, 5), (12, 1), (12, 3)]);
}

#[test]
fn handle_page_skips_removed_and_foreign_events_and_advances_cursor() {
    let mut removed = event(1, 70, 0, "A");
    removed.removed = true;
    let mut foreign = event(2, 80, 0, "A");
    foreign.contract_address = "0xdef".to_string();
    let page = vec![event(3, 60, 1, "A"), removed, foreign, event(4, 55, 0, "A")];
    let plan = HandleEvents::plan_page(&contract_address(100), page);
    let ids: Vec<u128> = plan.events.iter().map(|e| e.id).collect();
    assert_eq!(ids, vec![4, 3]);
    assert_eq!(plan.next_block_number_to_handle_from, Some(61));
    let empty = HandleEvents::plan_page(&contract_address(100), vec![]);
    assert_eq!(empty.next_block_number_to_handle_from, None);
}

#[test]
fn handler_lookup_uses_event_signature() {
    let abis = vec!["Approval(address,address,uint256)".to_string(), "Transfer(address,address,uint256)".to_string()];
    assert_eq!(HandleEvents::find_handler(&abis, &"Transfer(address,address,uint256)".to_string()), Some(1));
    assert_eq!(HandleEvents::find_handler(&abis, &"Mint(address)".to_string()), None);
}

#[test]
fn backoff_doubles_and_is_capped() {
    let secs: Vec<u64> = (0..8).map(backoff_secs).collect();
    assert_eq!(secs, vec![1, 2, 4, 8, 16, 32, 60, 60]);
    assert_eq!(backoff_secs(u32::MAX), 60);
}

#[test]
fn config_defaults_and_builders() {
    let config = Config::new(vec![ChainEndpoint { chain_id: 1, json_rpc_url: "http://localhost:8545".to_string() }]);
    assert_eq!(config.blocks_per_batch, 20);
    assert_eq!(config.handler_interval_ms, 10000);
    assert_eq!(config.ingestion_interval_ms, 10000);
    assert_eq!(config.reset_count, 0);
    assert!(config.contracts.is_empty());
    let config = config.add_contract(contracts().pop().unwrap()).reset(3);
    assert_eq!(config.reset_count, 3);
    assert_eq!(config.contracts.len(), 1);
    let tuned = config.with_blocks_per_batch(50).with_handler_interval_ms(5).with_ingestion_interval_ms(7);
    assert_eq!(tuned.blocks_per_batch, 50);
    assert_eq!(tuned.handler_interval_ms, 5);
    assert_eq!(tuned.ingestion_interval_ms, 7);
    assert_eq!(tuned.reset_count, 3);
    assert_eq!(tuned.contracts[0].name, "Nft");
    assert_eq!(tuned.chains[0].chain_id, 1);
    assert_eq!(config.blocks_per_batch, 20);
}

#[test]
fn repo_errors_map_to_ingester_errors() {
    assert!(matches!(EventsIngesterError::from(RepoError::NotConnected), EventsIngesterError::RepoConnectionError));
    match EventsIngesterError::from(RepoError::Unknown("boom".to_string())) {
        EventsIngesterError::GenericError(m) => assert_eq!(m, "boom"),
        other => panic!("unexpected {other:?}"),
    }
}

#[test]
fn one_block_fetch_per_transaction() {
    let logs = vec![
        LogBlockRef { transaction_hash: "0x1".to_string(), block_number: 10 },
        LogBlockRef { transaction_hash: "0x2".to_string(), block_number: 11 },
        LogBlockRef { transaction_hash: "0x1".to_string(), block_number: 10 },
    ];
    let fetch = blocks_to_fetch(&logs);
    let keys: Vec<(String, u64)> = fetch.iter().map(|r| (r.transaction_hash.clone(), r.block_number)).collect();
    assert_eq!(keys, vec![("0x1".to_string(), 10), ("0x2".to_string(), 11)]);
}

#[test]
fn contract_registration_is_checked_by_name() {
    assert!(is_registered_name(&contracts(), &"Nft".to_string()));
    assert!(!is_registered_name(&contracts(), &"Token".to_string()));
}

#[test]
fn filters_group_by_contract_address_in_order() {
    let mut a = Filter::new(&contract_address(100), &vec![], 150, 20, &Execution::Main);
    a.contract_address_id = 1;
    let mut b = Filter::new(&contract_address(110), &vec![], 150, 20, &Execution::Main);
    b.contract_address_id = 2;
    let mut c = Filter::new(&contract_address(120), &vec![], 150, 20, &Execution::Main);
    c.contract_address_id = 1;
    let groups = Filters::group_by_contract_address_id(&vec![a, b, c]);
    assert_eq!(groups.len(), 2);
    let froms: Vec<u64> = groups[&1].iter().map(|f| f.from_block).collect();
    assert_eq!(froms, vec![100, 120]);
    assert_eq!(groups[&2].len(), 1);
    assert_eq!(groups[&2][0].from_block, 110);
}

#[test]
fn latest_filter_is_the_last_of_equal_reach() {
    let mut a = Filter::new(&contract_address(100), &vec![], 150, 20, &Execution::Main);
    a.contract_address_id = 3;
    let mut b = Filter::new(&contract_address(100), &vec![], 150, 20, &Execution::Main);
    b.contract_address_id = 4;
    let c = Filter::new(&contract_address(90), &vec![], 150, 20, &Execution::Main);
    assert_eq!(Filters::get_latest(&vec![a, b, c]), Some(1));
}

#[test]
fn handler_order_keeps_page_order_for_equal_keys() {
    let page = vec![event(1, 12, 0, "A"), event(2, 11, 4, "A"), event(3, 12, 0, "A"), event(4, 11, 4, "A")];
    let ids: Vec<u128> = sort_by_block_and_log_index(page).iter().map(|e| e.id).collect();
    assert_eq!(ids, vec![2, 4, 1, 3]);
}

#[test]
fn ingest_cursors_move_past_each_window() {
    let cas = vec![contract_address(100), ContractAddress { id: 2, ..contract_address(140) }];
    let filters = Filters::new(&cas, &contracts(), 150, 20, &Execution::Main);
    assert_eq!(Filters::next_ingest_cursors(&filters), vec![(1, 121), (2, 151)]);
}
