use chain_core::error::{ChainFault, FaultKind, LedgerError};
use chain_core::hashing::sha256_hex;
use chain_core::proof_of_stake::transaction::transactions_to_json;
use chain_core::proof_of_stake::{Block, Blockchain, Stake, Transaction, Validator};

fn balance_of(ledger: &Blockchain, address: &str) -> Option<u64> {
    ledger.balances.get(&address.to_string()).copied()
}

fn stake_of(ledger: &Blockchain, address: &str) -> Option<u64> {
    ledger.stakes.get(&address.to_string()).map(|s| s.amount)
}

fn two_validators() -> Blockchain {
    let mut ledger = Blockchain::new();
    ledger.create_genesis_block();
    ledger.add_validator(Validator::new("V1".to_string()), Stake::new("V1".to_string(), 50));
    ledger.add_validator(Validator::new("V2".to_string()), Stake::new("V2".to_string(), 30));
    ledger
}

fn payment(from: &str, to: &str, amount: u64) -> Transaction {
    Transaction::new(from.to_string(), to.to_string(), amount)
}

#[test]
fn genesis_block_is_the_fixed_first_block() {
    let genesis = Block::genesis();
    assert_eq!(genesis.index, 0);
    assert_eq!(genesis.previous_hash, "0");
    assert_eq!(genesis.timestamp, 0);
    assert!(genesis.transactions.is_empty());
    assert_eq!(genesis.validator, "System");
    assert_eq!(genesis.hash, sha256_hex("000System[]"));
    assert_eq!(genesis.hash, genesis.calculate_hash());
    assert_eq!(Block::genesis().hash, genesis.hash);
}

#[test]
fn transactions_are_written_as_compact_json() {
    assert_eq!(transactions_to_json(&vec![]), "[]");
    assert_eq!(
        transactions_to_json(&vec![payment("A", "B", 40)]),
        "[{\"sender\":\"A\",\"recipient\":\"B\",\"amount\":40}]"
    );
    assert_eq!(
        transactions_to_json(&vec![payment("a\"b", "c\\d", 0), payment("\n", "é", u64::MAX)]),
        "[{\"sender\":\"a\\\"b\",\"recipient\":\"c\\\\d\",\"amount\":0},\
         {\"sender\":\"\\n\",\"recipient\":\"é\",\"amount\":18446744073709551615}]"
    );
}

#[test]
fn sealed_block_hash_is_the_digest_of_the_canonical_text() {
    let block = Block::seal(3, "abc".to_string(), 1700, vec![payment("A", "B", 40)], "V1".to_string());
    let text = "31700abcV1[{\"sender\":\"A\",\"recipient\":\"B\",\"amount\":40}]";
    assert_eq!(block.hash, sha256_hex(text));
    assert_eq!(block.calculate_hash(), block.hash);
    assert_eq!(block.hash.len(), 64);
    assert_eq!(block.index, 3);
    assert_eq!(block.timestamp, 1700);
    assert_eq!(block.validator, "V1");
}

#[test]
fn resealing_is_repeatable_and_ignores_the_stored_hash() {
    let mut block = Block::seal(1, "0".to_string(), 5, vec![], "V1".to_string());
    let first = block.calculate_hash();
    block.hash = "tampered".to_string();
    assert_eq!(block.calculate_hash(), first);
    assert_eq!(block.calculate_hash(), first);
}

#[test]
fn changing_any_field_changes_the_hash() {
    let base = Block::seal(1, "p".to_string(), 5, vec![payment("A", "B", 1)], "V1".to_string());
    let others = [
        Block::seal(2, "p".to_string(), 5, vec![payment("A", "B", 1)], "V1".to_string()),
        Block::seal(1, "q".to_string(), 5, vec![payment("A", "B", 1)], "V1".to_string()),
        Block::seal(1, "p".to_string(), 6, vec![payment("A", "B", 1)], "V1".to_string()),
        Block::seal(1, "p".to_string(), 5, vec![payment("A", "B", 2)], "V1".to_string()),
        Block::seal(1, "p".to_string(), 5, vec![payment("A", "B", 1)], "V2".to_string()),
    ];
    for other in &others {
        assert_ne!(other.hash, base.hash);
    }
}

#[test]
fn new_block_is_sealed_at_the_current_time() {
    let block = Block::new(1, "0".to_string(), vec![], "V1".to_string());
    assert!(block.timestamp > 1_600_000_000_000);
    assert_eq!(block.hash, block.calculate_hash());
    assert_eq!(block.clone().hash, block.hash);
}

#[test]
fn tickets_go_to_validators_in_order_of_registration() {
    let ledger = two_validators();
    assert_eq!(ledger.total_stake(), 80);
    assert_eq!(ledger.holder_of_ticket(0), Some(0));
    assert_eq!(ledger.holder_of_ticket(49), Some(0));
    assert_eq!(ledger.holder_of_ticket(50), Some(1));
    assert_eq!(ledger.holder_of_ticket(79), Some(1));
    assert_eq!(ledger.holder_of_ticket(80), None);
    assert_eq!(ledger.holder_of_ticket(u128::MAX), None);
}

#[test]
fn each_validator_holds_as_many_tickets_as_it_has_stake() {
    let ledger = two_validators();
    let mut held = [0u64; 2];
    for ticket in 0..ledger.total_stake() {
        held[ledger.holder_of_ticket(ticket).unwrap()] += 1;
    }
    assert_eq!(held, [50, 30]);
}

#[test]
fn validator_without_stake_holds_no_ticket() {
    let mut ledger = Blockchain::new();
    ledger.add_validator(Validator::new("Z".to_string()), Stake::new("Z".to_string(), 0));
    ledger.add_validator(Validator::new("V".to_string()), Stake::new("V".to_string(), 3));
    ledger.add_validator(Validator::new("Y".to_string()), Stake::new("Y".to_string(), 0));
    for ticket in 0..3 {
        assert_eq!(ledger.holder_of_ticket(ticket), Some(1));
    }
    assert_eq!(ledger.holder_of_ticket(3), None);
    for _ in 0..200 {
        assert_eq!(ledger.select_validator(), Some("V".to_string()));
    }
}

#[test]
fn nobody_is_selected_without_validators_or_without_stake() {
    let mut ledger = Blockchain::new();
    assert_eq!(ledger.select_validator(), None);
    ledger.add_validator(Validator::new("Z".to_string()), Stake::new("Z".to_string(), 0));
    assert_eq!(ledger.total_stake(), 0);
    assert_eq!(ledger.select_validator(), None);
}

#[test]
fn selection_follows_the_stakes() {
    let ledger = two_validators();
    let trials = 16_000;
    let mut first = 0;
    for _ in 0..trials {
        match ledger.select_validator().as_deref() {
            Some("V1") => first += 1,
            Some("V2") => {}
            other => panic!("unexpected selection {:?}", other),
        }
    }
    // Expected 10000 of 16000; the standard deviation is about 61.
    assert!((9_500..=10_500).contains(&first), "V1 was selected {} times", first);
}

#[test]
fn total_stake_does_not_overflow() {
    let mut ledger = Blockchain::new();
    ledger.add_validator(Validator::new("A".to_string()), Stake::new("A".to_string(), u64::MAX));
    ledger.add_validator(Validator::new("B".to_string()), Stake::new("B".to_string(), u64::MAX));
    assert_eq!(ledger.total_stake(), 2 * (u64::MAX as u128));
    assert_eq!(ledger.holder_of_ticket(u64::MAX as u128 - 1), Some(0));
    assert_eq!(ledger.holder_of_ticket(u64::MAX as u128), Some(1));
}

#[test]
fn produce_block_needs_a_genesis_block() {
    let mut ledger = Blockchain::new();
    ledger.add_validator(Validator::new("V1".to_string()), Stake::new("V1".to_string(), 50));
    ledger.add_transaction(payment("V1", "A", 1)).unwrap();
    assert_eq!(ledger.produce_block(0, 1).err(), Some(LedgerError::NoGenesisBlock));
    assert!(ledger.add_block().is_none());
    assert_eq!(ledger.pending_transactions.len(), 1);
}

#[test]
fn produce_block_needs_pending_work() {
    let mut ledger = two_validators();
    assert_eq!(ledger.produce_block(0, 1).err(), Some(LedgerError::NoPendingWork));
    assert!(ledger.add_block().is_none());
    assert_eq!(ledger.chain.len(), 1);
}

#[test]
fn produce_block_needs_a_ticket_that_somebody_holds() {
    let mut ledger = two_validators();
    ledger.add_transaction(payment("V1", "A", 1)).unwrap();
    assert_eq!(ledger.produce_block(80, 1).err(), Some(LedgerError::NoEligibleValidator));
    assert_eq!(ledger.chain.len(), 1);
    assert_eq!(ledger.pending_transactions.len(), 1);
}

#[test]
fn produce_block_refuses_an_index_that_cannot_be_counted() {
    let mut ledger = two_validators();
    ledger.chain[0].index = u64::MAX;
    ledger.add_transaction(payment("V1", "A", 1)).unwrap();
    assert_eq!(ledger.produce_block(0, 1).err(), Some(LedgerError::IndexOverflow));
}

#[test]
fn produce_block_refuses_a_reward_that_cannot_be_held() {
    let mut ledger = Blockchain::new();
    ledger.create_genesis_block();
    ledger.add_validator(Validator::new("V".to_string()), Stake::new("V".to_string(), u64::MAX - 4));
    ledger.add_transaction(payment("V", "V", 1)).unwrap();
    assert_eq!(ledger.produce_block(0, 1).err(), Some(LedgerError::BalanceOverflow));
    assert_eq!(ledger.chain.len(), 1);
    assert_eq!(ledger.pending_transactions.len(), 1);
    assert_eq!(balance_of(&ledger, "V"), Some(u64::MAX - 4));
}

#[test]
fn produced_block_drains_the_pool_behind_the_reward() {
    let mut ledger = two_validators();
    ledger.add_transaction(payment("V1", "Alice", 40)).unwrap();
    ledger.add_transaction(payment("Alice", "Bob", 15)).unwrap();
    let genesis_hash = ledger.chain[0].hash.clone();

    let block = ledger.produce_block(60, 1234).unwrap();

    assert_eq!(block.index, 1);
    assert_eq!(block.previous_hash, genesis_hash);
    assert_eq!(block.timestamp, 1234);
    assert_eq!(block.validator, "V2");
    assert_eq!(block.transactions.len(), 3);
    assert_eq!(block.transactions[0].sender, "System");
    assert_eq!(block.transactions[0].recipient, "V2");
    assert_eq!(block.transactions[0].amount, 5);
    assert_eq!(block.transactions[1].recipient, "Alice");
    assert_eq!(block.transactions[2].recipient, "Bob");
    assert_eq!(block.hash, block.calculate_hash());

    assert_eq!(ledger.chain.len(), 2);
    assert_eq!(ledger.chain[1].hash, block.hash);
    assert!(ledger.pending_transactions.is_empty());
    assert_eq!(balance_of(&ledger, "V1"), Some(10));
    assert_eq!(balance_of(&ledger, "V2"), Some(35));
    assert_eq!(balance_of(&ledger, "Alice"), Some(25));
    assert_eq!(balance_of(&ledger, "Bob"), Some(15));
    assert_eq!(ledger.audit_chain(), Ok(()));
}

#[test]
fn add_block_draws_a_producer_and_pays_it() {
    let mut ledger = two_validators();
    ledger.add_transaction(payment("V1", "Alice", 40)).unwrap();
    let block = ledger.add_block().expect("a block is produced");
    assert!(block.validator == "V1" || block.validator == "V2");
    assert_eq!(block.index, 1);
    assert_eq!(block.previous_hash, ledger.chain[0].hash);
    assert_eq!(block.transactions.len(), 2);
    assert_eq!(block.transactions[0].recipient, block.validator);
    assert_eq!(ledger.chain.len(), 2);
    assert!(ledger.pending_transactions.is_empty());
    let paid = if block.validator == "V1" { 10 + 5 } else { 30 + 5 };
    assert_eq!(balance_of(&ledger, &block.validator), Some(paid));
    assert!(ledger.is_valid_chain());
    assert!(ledger.add_block().is_none());
}

#[test]
fn produced_chain_is_linked() {
    let mut ledger = two_validators();
    for round in 0..5u64 {
        ledger.add_transaction(payment("V1", "A", 1)).unwrap();
        ledger.produce_block((round * 17 % 80) as u128, round).unwrap();
    }
    assert_eq!(ledger.chain.len(), 6);
    for i in 1..ledger.chain.len() {
        assert_eq!(ledger.chain[i].previous_hash, ledger.chain[i - 1].hash);
        assert_eq!(ledger.chain[i].index, i as u64);
    }
    assert_eq!(ledger.audit_chain(), Ok(()));
}

#[test]
fn audit_reports_a_tampered_block_as_bad_hash() {
    let mut ledger = two_validators();
    for round in 0..3u64 {
        ledger.add_transaction(payment("V1", "A", 1)).unwrap();
        ledger.produce_block(0, round).unwrap();
    }
    ledger.chain[2].transactions[1].amount = 1_000;
    assert_eq!(
        ledger.audit_chain(),
        Err(ChainFault { index: 2, kind: FaultKind::BadHash })
    );
    assert!(!ledger.is_valid_chain());
}

#[test]
fn audit_reports_a_resealed_block_as_bad_linkage_of_its_successor() {
    let mut ledger = two_validators();
    for round in 0..3u64 {
        ledger.add_transaction(payment("V1", "A", 1)).unwrap();
        ledger.produce_block(0, round).unwrap();
    }
    ledger.chain[1].timestamp = 99;
    ledger.chain[1].hash = ledger.chain[1].calculate_hash();
    assert_eq!(
        ledger.audit_chain(),
        Err(ChainFault { index: 2, kind: FaultKind::BadLinkage })
    );
}

#[test]
fn slashing_takes_a_quarter_of_the_stake() {
    let mut ledger = Blockchain::new();
    ledger.add_validator(Validator::new("V".to_string()), Stake::new("V".to_string(), 40));
    assert_eq!(ledger.slash_validator(&"V".to_string()), Ok(()));
    assert_eq!(stake_of(&ledger, "V"), Some(30));
    assert_eq!(balance_of(&ledger, "V"), Some(30));
    assert!(ledger.validators.contains_key(&"V".to_string()));
}

#[test]
fn slashing_rounds_the_penalty_down() {
    let mut ledger = Blockchain::new();
    ledger.add_validator(Validator::new("V".to_string()), Stake::new("V".to_string(), 7));
    assert_eq!(ledger.slash_validator(&"V".to_string()), Ok(()));
    assert_eq!(stake_of(&ledger, "V"), Some(6));
    ledger.add_validator(Validator::new("W".to_string()), Stake::new("W".to_string(), 3));
    assert_eq!(ledger.slash_validator(&"W".to_string()), Ok(()));
    assert_eq!(stake_of(&ledger, "W"), Some(3));
}

#[test]
fn slashing_stops_the_balance_at_zero() {
    let mut ledger = Blockchain::new();
    ledger.add_validator(Validator::new("V".to_string()), Stake::new("V".to_string(), 40));
    ledger.add_transaction(payment("V", "A", 35)).unwrap();
    assert_eq!(ledger.slash_validator(&"V".to_string()), Ok(()));
    assert_eq!(stake_of(&ledger, "V"), Some(30));
    assert_eq!(balance_of(&ledger, "V"), Some(0));
    assert_eq!(balance_of(&ledger, "A"), Some(35));
}

#[test]
fn slashing_an_unknown_validator_changes_nothing() {
    let mut ledger = two_validators();
    assert_eq!(ledger.slash_validator(&"V3".to_string()), Err(LedgerError::ValidatorNotFound));
    assert_eq!(stake_of(&ledger, "V1"), Some(50));
    assert_eq!(stake_of(&ledger, "V2"), Some(30));
    assert_eq!(balance_of(&ledger, "V1"), Some(50));
}

#[test]
fn validator_without_stake_is_removed_by_slashing_and_never_selected_again() {
    let mut ledger = two_validators();
    ledger.add_validator(Validator::new("Z".to_string()), Stake::new("Z".to_string(), 0));
    assert_eq!(ledger.slash_validator(&"Z".to_string()), Ok(()));
    assert!(!ledger.stakes.contains_key(&"Z".to_string()));
    assert!(!ledger.validators.contains_key(&"Z".to_string()));
    assert_eq!(balance_of(&ledger, "Z"), Some(0));
    assert_eq!(ledger.slash_validator(&"Z".to_string()), Err(LedgerError::ValidatorNotFound));
    for ticket in 0..ledger.total_stake() {
        let holder = ledger.holder_of_ticket(ticket).unwrap();
        assert_ne!(ledger.stakes.key_at(holder), "Z");
    }
}

#[test]
fn remove_validator_takes_it_out_of_registry_and_stakes() {
    let mut ledger = two_validators();
    ledger.remove_validator(&"V1".to_string());
    assert!(!ledger.validators.contains_key(&"V1".to_string()));
    assert!(!ledger.stakes.contains_key(&"V1".to_string()));
    assert_eq!(balance_of(&ledger, "V1"), Some(50));
    assert_eq!(ledger.total_stake(), 30);
    assert_eq!(ledger.holder_of_ticket(0), Some(0));
    assert_eq!(ledger.stakes.key_at(0), "V2");
}

#[test]
fn offences_on_record_name_the_second_validator_at_index_two() {
    assert_eq!(Blockchain::get_malicious_validators(), vec![(2, "Validator2".to_string())]);
}

#[test]
fn detect_and_slash_leaves_an_honest_chain_alone() {
    let mut ledger = two_validators();
    for round in 0..3u64 {
        ledger.add_transaction(payment("V1", "A", 1)).unwrap();
        ledger.produce_block(60, round).unwrap();
    }
    let found = ledger.detect_and_slash_known(&vec![]);
    assert!(found.is_empty());
    assert_eq!(ledger.chain.len(), 4);
    assert_eq!(stake_of(&ledger, "V2"), Some(30));
}

#[test]
fn detect_and_slash_cuts_out_every_later_duplicate() {
    let mut ledger = two_validators();
    ledger.chain.push(Block::seal(1, "a".to_string(), 1, vec![], "V1".to_string()));
    ledger.chain.push(Block::seal(1, "b".to_string(), 2, vec![], "V2".to_string()));
    ledger.chain.push(Block::seal(1, "c".to_string(), 3, vec![], "V1".to_string()));
    ledger.chain.push(Block::seal(2, "d".to_string(), 4, vec![], "V1".to_string()));
    ledger.chain.push(Block::seal(1, "e".to_string(), 5, vec![], "V1".to_string()));

    let found = ledger.detect_and_slash_known(&vec![]);

    assert_eq!(found, vec![(1, "V1".to_string()), (1, "V1".to_string())]);
    let left: Vec<&str> = ledger.chain.iter().map(|b| b.previous_hash.as_str()).collect();
    assert_eq!(left, vec!["0", "a", "b", "d"]);
    // 50 -> 38 -> 29, a quarter rounded down each time.
    assert_eq!(stake_of(&ledger, "V1"), Some(29));
    assert_eq!(balance_of(&ledger, "V1"), Some(29));
    assert_eq!(stake_of(&ledger, "V2"), Some(30));
}

#[test]
fn detect_and_slash_flags_what_is_on_record() {
    let mut ledger = Blockchain::new();
    ledger.create_genesis_block();
    ledger.add_validator(
        Validator::new("Validator1".to_string()),
        Stake::new("Validator1".to_string(), 50),
    );
    ledger.add_validator(
        Validator::new("Validator2".to_string()),
        Stake::new("Validator2".to_string(), 30),
    );
    ledger.chain.push(Block::seal(1, "0".to_string(), 1, vec![], "Validator1".to_string()));
    ledger.chain.push(Block::seal(2, "x".to_string(), 2, vec![], "Validator2".to_string()));

    ledger.detect_and_slash();

    assert_eq!(ledger.chain.len(), 2);
    assert_eq!(ledger.chain[1].validator, "Validator1");
    // 30 / 4 = 7, rounded down.
    assert_eq!(stake_of(&ledger, "Validator2"), Some(23));
    assert_eq!(balance_of(&ledger, "Validator2"), Some(23));
    assert_eq!(stake_of(&ledger, "Validator1"), Some(50));
}

#[test]
fn end_to_end_double_signing_is_found_slashed_and_cut_out() {
    let mut ledger = Blockchain::new();
    ledger.create_genesis_block();
    ledger.add_validator(Validator::new("V1".to_string()), Stake::new("V1".to_string(), 50));
    ledger.add_validator(Validator::new("V2".to_string()), Stake::new("V2".to_string(), 30));
    ledger.add_transaction(payment("V1", "Alice", 40)).unwrap();
    ledger.add_transaction(payment("Alice", "Bob", 15)).unwrap();

    // Ticket 55 belongs to V2, which holds tickets 50 to 79.
    let block = ledger.produce_block(55, 1_000).unwrap();
    assert_eq!(block.validator, "V2");
    assert_eq!(block.transactions.len(), 3);
    assert_eq!(balance_of(&ledger, "V2"), Some(35));
    assert_eq!(ledger.audit_chain(), Ok(()));

    let injected = Block::seal(
        1,
        ledger.chain[0].hash.clone(),
        2_000,
        vec![payment("X", "Y", 15)],
        "V2".to_string(),
    );
    let injected_hash = injected.hash.clone();
    ledger.chain.push(injected);

    let found = ledger.detect_and_slash_known(&vec![]);

    assert_eq!(found, vec![(1, "V2".to_string())]);
    assert_eq!(ledger.chain.len(), 2);
    assert_eq!(ledger.chain[1].hash, block.hash);
    assert!(ledger.chain.iter().all(|b| b.hash != injected_hash));
    // 30 / 4 = 7: the stake falls to 23, the balance from 35 to 28.
    assert_eq!(stake_of(&ledger, "V2"), Some(23));
    assert_eq!(balance_of(&ledger, "V2"), Some(28));
    assert_eq!(balance_of(&ledger, "V1"), Some(10));
    assert_eq!(balance_of(&ledger, "Alice"), Some(25));
    assert_eq!(balance_of(&ledger, "Bob"), Some(15));
    assert_eq!(ledger.audit_chain(), Ok(()));
}
