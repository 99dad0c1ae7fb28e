use chaindexing::migrations::{
    plan_migrations, reset_migrations_of, table_names_of, ContractStateMigrations,
    DefaultMigration, MigrationError, STATE_VERSIONS_TABLE_PREFIX,
};

struct TestContractState;

impl ContractStateMigrations for TestContractState {
    // A specification item: only the verifier reads it, nothing calls it at run time.
    fn spec_migrations(&self) -> vstd::seq::Seq<vstd::seq::Seq<char>> {
        unreachable!("specification item")
    }

    fn migrations(&self) -> Vec<&'static str> {
        vec![
            "CREATE TABLE IF NOT EXISTS nft_states (
                      token_id INTEGER NOT NULL,
                      contract_address TEXT NOT NULL,
                      owner_address TEXT NOT NULL
                  )",
            "UPDATE nft_states
                  SET owner_address = ''
                  WHERE owner_address IS NULL",
        ]
    }
}

fn test_contract_state() -> impl ContractStateMigrations {
    TestContractState
}

fn assert_default_migration(migration: &str) {
    DefaultMigration::get_fields()
        .iter()
        .for_each(|field| assert!(migration.contains(field)));
}

#[test]
fn returns_two_more_migrations_for_create_state_migrations() {
    let contract_state = test_contract_state();

    assert_eq!(
        contract_state.get_migrations().unwrap().len(),
        contract_state.migrations().len() + 2
    );
}

#[test]
fn appends_default_migration_to_create_state_views_migrations() {
    let contract_state = test_contract_state();
    let migrations = contract_state.get_migrations().unwrap();
    let create_state_migration = migrations.first().unwrap();

    assert_ne!(
        create_state_migration,
        contract_state.migrations().first().unwrap()
    );

    assert_default_migration(&create_state_migration);
}

#[test]
fn removes_repeating_default_migrations_in_create_state_views_migration() {
    let contract_state = test_contract_state();
    let migrations = contract_state.get_migrations().unwrap();
    let create_state_migration = migrations.first().unwrap();

    DefaultMigration::get_fields().iter().for_each(|state_field| {
        assert_eq!(create_state_migration.matches(state_field).count(), 1)
    });
}

#[test]
fn creates_an_extra_migration_for_creating_state_versions() {
    let contract_state = test_contract_state();
    let mut migrations = contract_state.get_migrations().unwrap();
    migrations.pop();
    let create_state_versions_migration = migrations.last().unwrap();

    assert!(create_state_versions_migration.contains(STATE_VERSIONS_TABLE_PREFIX));
    assert_default_migration(create_state_versions_migration);
}

#[test]
fn returns_other_migrations_untouched() {
    let contract_state = test_contract_state();

    assert_eq!(
        contract_state.migrations().last().unwrap(),
        contract_state.get_migrations().unwrap().last().unwrap()
    );
}

const NFT_STATES: &str = "CREATE TABLE IF NOT EXISTS nft_states (token_id INTEGER NOT NULL, contract_address TEXT NOT NULL, owner_address TEXT NOT NULL)";
const NFT_UPDATE: &str = "UPDATE nft_states SET owner_address = '' WHERE owner_address IS NULL";

#[test]
fn planner_scenario_gives_view_versions_index_and_pass_through() {
    let planned = plan_migrations(&vec![NFT_STATES, NFT_UPDATE]).unwrap();
    assert_eq!(planned.len(), 4);
    for field in DefaultMigration::get_fields() {
        assert_eq!(planned[0].matches(field).count(), 1, "{field}");
    }
    assert_eq!(
        planned[0],
        "CREATE TABLE IF NOT EXISTS nft_states (token_id INTEGER NOT NULL, contract_address TEXT NOT NULL, owner_address TEXT NOT NULL, chain_id INTEGER NOT NULL, block_hash TEXT NOT NULL, block_number BIGINT NOT NULL, transaction_hash TEXT NOT NULL, transaction_index BIGINT NOT NULL, log_index BIGINT NOT NULL)"
    );
    assert!(planned[1].starts_with(&format!(
        "CREATE TABLE IF NOT EXISTS {STATE_VERSIONS_TABLE_PREFIX}nft_states"
    )));
    assert_eq!(
        planned[2],
        format!(
            "CREATE UNIQUE INDEX IF NOT EXISTS unique_{p}nft_states ON {p}nft_states(state_version_is_deleted, state_version_group_id, token_id, contract_address, owner_address, chain_id, block_hash, block_number, transaction_hash, transaction_index, log_index)",
            p = STATE_VERSIONS_TABLE_PREFIX
        )
    );
    assert_eq!(planned[3], NFT_UPDATE);
}

#[test]
fn version_table_lists_state_version_columns_first() {
    let planned = plan_migrations(&vec![NFT_STATES]).unwrap();
    assert_eq!(
        planned[1],
        format!(
            "CREATE TABLE IF NOT EXISTS {STATE_VERSIONS_TABLE_PREFIX}nft_states (state_version_id BIGSERIAL PRIMARY KEY, state_version_is_deleted BOOL NOT NULL DEFAULT false, state_version_group_id UUID NOT NULL, token_id INTEGER NOT NULL, contract_address TEXT NOT NULL, owner_address TEXT NOT NULL, chain_id INTEGER NOT NULL, block_hash TEXT NOT NULL, block_number BIGINT NOT NULL, transaction_hash TEXT NOT NULL, transaction_index BIGINT NOT NULL, log_index BIGINT NOT NULL)"
        )
    );
}

#[test]
fn rejects_temporal_column_and_returns_nothing() {
    let r = plan_migrations(&vec![
        NFT_UPDATE,
        "CREATE TABLE IF NOT EXISTS t (created_at timestamp NOT NULL)",
    ]);
    assert_eq!(r, Err(MigrationError::DisallowedColumnType { index: 1 }));
}

#[test]
fn rejects_temporal_keywords_without_regard_to_case() {
    for m in [
        "CREATE TABLE IF NOT EXISTS t (d DATE NOT NULL)",
        "CREATE TABLE IF NOT EXISTS t (d TimeStampZ)",
        "CREATE TABLE IF NOT EXISTS t (d Time)",
    ] {
        assert_eq!(
            plan_migrations(&vec![m]),
            Err(MigrationError::DisallowedColumnType { index: 0 })
        );
    }
    assert_eq!(
        reset_migrations_of(&vec![NFT_STATES, "CREATE TABLE IF NOT EXISTS t (d date)"]),
        Err(MigrationError::DisallowedColumnType { index: 1 })
    );
}

#[test]
fn cardinality_counts_two_extra_per_create() {
    let second = "CREATE TABLE IF NOT EXISTS balances (holder TEXT NOT NULL, amount TEXT NOT NULL)";
    let planned = plan_migrations(&vec![NFT_STATES, NFT_UPDATE, second, NFT_UPDATE]).unwrap();
    assert_eq!(planned.len(), 4 + 2 * 2);
    assert_eq!(planned[3], NFT_UPDATE);
    assert_eq!(planned[7], NFT_UPDATE);
    assert!(planned[5].starts_with(&format!(
        "CREATE TABLE IF NOT EXISTS {STATE_VERSIONS_TABLE_PREFIX}balances"
    )));
    assert!(plan_migrations(&vec![]).unwrap().is_empty());
}

#[test]
fn reset_drops_view_and_version_tables() {
    let resets = reset_migrations_of(&vec![NFT_STATES, NFT_UPDATE]).unwrap();
    assert_eq!(
        resets,
        vec![
            "DROP TABLE IF EXISTS nft_states".to_string(),
            format!("DROP TABLE IF EXISTS {STATE_VERSIONS_TABLE_PREFIX}nft_states"),
        ]
    );
    let contract_state = test_contract_state();
    assert_eq!(contract_state.get_reset_migrations().unwrap(), resets);
}

#[test]
fn table_names_come_from_create_migrations() {
    assert_eq!(table_names_of(&vec![NFT_STATES, NFT_UPDATE]), vec!["nft_states".to_string()]);
    assert_eq!(test_contract_state().get_table_names(), vec!["nft_states".to_string()]);
}

#[test]
fn default_migration_lists_seven_columns() {
    assert_eq!(DefaultMigration::get_fields().len(), 7);
    assert_eq!(
        DefaultMigration::get(),
        "contract_address TEXT NOT NULL, chain_id INTEGER NOT NULL, block_hash TEXT NOT NULL, block_number BIGINT NOT NULL, transaction_hash TEXT NOT NULL, transaction_index BIGINT NOT NULL, log_index BIGINT NOT NULL"
    );
}

#[test]
fn remove_repeating_occurrences_keeps_first_naming_column() {
    let cols = vec![
        "token_id INTEGER".to_string(),
        "contract_address TEXT".to_string(),
        "contract_address TEXT NOT NULL".to_string(),
        "my_chain_id INTEGER".to_string(),
        "chain_id INTEGER NOT NULL".to_string(),
    ];
    assert_eq!(
        DefaultMigration::remove_repeating_occurrences(&cols),
        vec![
            "token_id INTEGER".to_string(),
            "contract_address TEXT".to_string(),
            "my_chain_id INTEGER".to_string(),
        ]
    );
}

#[test]
fn table_name_counts_as_naming_a_default_column() {
    let m = "CREATE TABLE IF NOT EXISTS block_number_states (token_id INTEGER NOT NULL)";
    let planned = plan_migrations(&vec![m]).unwrap();
    assert_eq!(planned.len(), 3);
    for field in DefaultMigration::get_fields() {
        assert_eq!(planned[0].matches(field).count(), 1, "{field}");
    }
    assert_eq!(
        planned[0],
        "CREATE TABLE IF NOT EXISTS block_number_states (token_id INTEGER NOT NULL, contract_address TEXT NOT NULL, chain_id INTEGER NOT NULL, block_hash TEXT NOT NULL, transaction_hash TEXT NOT NULL, transaction_index BIGINT NOT NULL, log_index BIGINT NOT NULL)"
    );
    for field in DefaultMigration::get_fields() {
        assert_eq!(planned[1].matches(field).count(), 1, "{field}");
    }
}
