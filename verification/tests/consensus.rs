use hybrid_stake::block::Block;
use hybrid_stake::engine::{Blockchain, ConsensusError};
use hybrid_stake::participants::Validator;
use hybrid_stake::selection::{pick_by_weight, total_of, weights_vec};

fn standard_setup() -> Blockchain {
    let mut bc = Blockchain::new(5);
    bc.add_validator("Validator1".to_string(), 100, 10);
    bc.add_validator("Validator2".to_string(), 200, 10);
    bc.add_validator("Validator3".to_string(), 150, 10);
    bc.add_token_holder("Holder1".to_string(), 50, Some("Validator1".to_string()));
    bc.add_token_holder("Holder2".to_string(), 80, Some("Validator2".to_string()));
    bc.add_token_holder("Holder3".to_string(), 70, Some("Validator3".to_string()));
    bc
}

fn next_draw(seed: &mut u128) -> u128 {
    *seed = seed
        .wrapping_mul(6364136223846793005)
        .wrapping_add(1442695040888963407);
    *seed
}

#[test]
fn chain_is_linked_after_rounds() {
    let mut bc = standard_setup();
    let mut seed: u128 = 7;
    for r in 0..20u128 {
        let draw = next_draw(&mut seed);
        let outcome = bc.run_round_with_draw(1_700_000_000_000 + r, draw);
        assert!(outcome.error.is_none());
        assert!(outcome.appended.is_some());
    }
    assert_eq!(bc.blocks.len(), 20);
    assert_eq!(bc.blocks[0].previous_digest, "");
    for i in 1..bc.blocks.len() {
        assert_eq!(bc.blocks[i].previous_digest, bc.blocks[i - 1].digest);
    }
    for (i, b) in bc.blocks.iter().enumerate() {
        assert_eq!(b.id, i as u64);
    }
}

#[test]
fn hash_is_deterministic() {
    let a = Block::new(3, "payload".to_string(), "V".to_string(), 99, "prev".to_string());
    let b = Block::new(3, "payload".to_string(), "V".to_string(), 99, "prev".to_string());
    assert_eq!(a.digest, b.digest);
    let c = Block::new(3, "payload".to_string(), "V".to_string(), 100, "prev".to_string());
    assert_ne!(a.digest, c.digest);
}

#[test]
fn digest_is_lowercase_hex_not_an_echo() {
    let b = Block::new(0, "payload".to_string(), "V".to_string(), 1, "prev".to_string());
    assert_eq!(b.digest.len(), 32);
    assert!(b.digest.chars().all(|c| c.is_ascii_hexdigit()));
    assert_ne!(b.digest, b.previous_digest);
    assert_ne!(b.digest, b.data);
}

#[test]
fn delegation_is_fully_replaced_each_time() {
    let mut bc = standard_setup();
    bc.aggregate_delegations();
    let read = |bc: &Blockchain, name: &str| {
        bc.validators
            .iter()
            .find(|v| v.id == name)
            .unwrap()
            .delegated_stake
    };
    assert_eq!(read(&bc, "Validator1"), 50);
    assert_eq!(read(&bc, "Validator2"), 80);
    assert_eq!(read(&bc, "Validator3"), 70);
    bc.aggregate_delegations();
    assert_eq!(read(&bc, "Validator1"), 50);
    let mut seed: u128 = 21;
    for r in 0..10u128 {
        let draw = next_draw(&mut seed);
        bc.run_round_with_draw(r, draw);
    }
    assert_eq!(read(&bc, "Validator1"), 50);
    assert_eq!(read(&bc, "Validator2"), 80);
    assert_eq!(read(&bc, "Validator3"), 70);
}

#[test]
fn holder_without_target_delegates_to_nobody() {
    let mut bc = Blockchain::new(5);
    bc.add_validator("V".to_string(), 10, 10);
    bc.add_token_holder("H".to_string(), 40, None);
    bc.aggregate_delegations();
    assert_eq!(bc.validators[0].delegated_stake, 0);
}

#[test]
fn doubling_stake_does_not_lower_selection_share() {
    let build = |stake: u64| -> Vec<Validator> {
        vec![
            Validator {
                id: "A".to_string(),
                stake,
                delegated_stake: 0,
                rotation_period: 10,
                last_block_validated: 0,
                reputation: 10,
            },
            Validator {
                id: "B".to_string(),
                stake: 5,
                delegated_stake: 0,
                rotation_period: 10,
                last_block_validated: 0,
                reputation: 10,
            },
        ]
    };
    let tally = |vals: &Vec<Validator>| -> (u128, u128) {
        let ws = weights_vec(vals);
        let total = total_of(&ws);
        let mut hits: u128 = 0;
        let mut t: u128 = 0;
        while t < total {
            if pick_by_weight(&ws, t) == 0 {
                hits += 1;
            }
            t += 1;
        }
        (hits, total)
    };
    let (hits1, total1) = tally(&build(3));
    let (hits2, total2) = tally(&build(6));
    // share must not decrease: hits2 / total2 >= hits1 / total1
    assert!(hits2 * total1 >= hits1 * total2);
}

#[test]
fn finality_reported_for_dominant_producer() {
    let mut bc = Blockchain::new(4);
    bc.add_validator("A".to_string(), 10, 100);
    bc.add_validator("B".to_string(), 10, 100);
    let producers = ["A", "A", "B", "A"];
    for (i, p) in producers.iter().enumerate() {
        let prev = if bc.blocks.is_empty() {
            String::new()
        } else {
            bc.blocks.last().unwrap().digest.clone()
        };
        let b = Block::new(i as u64, "payload".to_string(), p.to_string(), i as u128, prev);
        assert!(bc.validate_and_append(b).is_ok());
    }
    let report = bc.check_finality();
    assert!(report.iter().any(|s| s == "A"));
    assert!(!report.iter().any(|s| s == "B"));
    assert_eq!(report.len(), 1);
}

#[test]
fn finality_scan_with_zero_threshold_reports_nobody() {
    let mut bc = Blockchain::new(0);
    bc.add_validator("A".to_string(), 10, 100);
    let b = Block::new(0, "payload".to_string(), "A".to_string(), 0, String::new());
    assert!(bc.validate_and_append(b).is_ok());
    assert!(bc.check_finality().is_empty());
}

#[test]
fn rotation_penalty_applies_after_inactivity() {
    let mut bc = Blockchain::new(5);
    bc.add_validator("V".to_string(), 50, 3);
    for _ in 0..5 {
        bc.rotate_validators();
    }
    // penalized at periods 3, 4 and 5: three units of stake, three
    // tenths of reputation, and an untouched inactivity clock
    assert_eq!(bc.current_period, 5);
    assert_eq!(bc.validators[0].stake, 47);
    assert_eq!(bc.validators[0].reputation, 7);
    assert_eq!(bc.validators[0].last_block_validated, 0);
    // validating a block finally resets the clock
    let b = Block::new(0, "payload".to_string(), "V".to_string(), 0, String::new());
    assert!(bc.validate_and_append(b).is_ok());
    assert_eq!(bc.validators[0].last_block_validated, 5);
}

#[test]
fn penalty_saturates_at_zero() {
    let mut bc = Blockchain::new(5);
    bc.add_validator("V".to_string(), 1, 0);
    for _ in 0..15 {
        bc.rotate_validators();
    }
    assert_eq!(bc.validators[0].stake, 0);
    assert_eq!(bc.validators[0].reputation, 0);
}

#[test]
fn end_to_end_twenty_rounds() {
    let mut bc = standard_setup();
    let initial = [100u64, 200, 150];
    let names = ["Validator1", "Validator2", "Validator3"];
    let mut seed: u128 = 424242;
    for r in 0..20u128 {
        let draw = next_draw(&mut seed);
        let outcome = bc.run_round_with_draw(r, draw);
        assert!(outcome.error.is_none());
    }
    assert_eq!(bc.blocks.len(), 20);
    assert_eq!(bc.blocks[0].previous_digest, "");
    for i in 1..bc.blocks.len() {
        assert_eq!(bc.blocks[i].previous_digest, bc.blocks[i - 1].digest);
    }
    // replay the reward and penalty rules against the produced chain
    let mut last = [0u64; 3];
    let mut selected = [0u64; 3];
    let mut penalties = [0u64; 3];
    for round in 1..=20u64 {
        let producer = &bc.blocks[(round - 1) as usize].validator_id;
        let p = names.iter().position(|n| n == producer).unwrap();
        selected[p] += 1;
        last[p] = round - 1;
        for v in 0..3 {
            if round - last[v] >= 10 {
                penalties[v] += 1;
            }
        }
    }
    for v in 0..3 {
        let expected = initial[v] + 10 * selected[v] - penalties[v];
        let actual = bc
            .validators
            .iter()
            .find(|x| x.id == names[v])
            .unwrap()
            .stake;
        assert_eq!(actual, expected);
    }
}

#[test]
fn unknown_validator_is_rejected_without_mutation() {
    let mut bc = Blockchain::new(5);
    bc.add_validator("A".to_string(), 10, 10);
    let b = Block::new(0, "payload".to_string(), "X".to_string(), 0, String::new());
    let res = bc.validate_and_append(b);
    assert_eq!(res, Err(ConsensusError::UnknownValidator));
    assert!(bc.blocks.is_empty());
    assert_eq!(bc.validators[0].stake, 10);
}

#[test]
fn mislinked_block_is_rejected_without_mutation() {
    let mut bc = Blockchain::new(5);
    bc.add_validator("A".to_string(), 10, 10);
    let good = Block::new(0, "payload".to_string(), "A".to_string(), 0, String::new());
    assert!(bc.validate_and_append(good).is_ok());
    let bad = Block::new(1, "payload".to_string(), "A".to_string(), 1, "bogus".to_string());
    let res = bc.validate_and_append(bad);
    assert_eq!(res, Err(ConsensusError::ChainLinkError));
    assert_eq!(bc.blocks.len(), 1);
    assert_eq!(bc.validators[0].stake, 20);
}

#[test]
fn round_without_eligible_validator_still_rotates() {
    let mut bc = Blockchain::new(5);
    let outcome = bc.run_round_with_draw(0, 99);
    assert_eq!(outcome.error, Some(ConsensusError::NoEligibleValidator));
    assert!(outcome.appended.is_none());
    assert!(outcome.finality.is_empty());
    assert!(bc.blocks.is_empty());
    assert_eq!(bc.current_period, 1);
}

#[test]
fn zero_weight_validators_are_never_selected() {
    let mut bc = Blockchain::new(5);
    bc.add_validator("Broke".to_string(), 0, 10);
    assert_eq!(
        bc.select_validator(),
        Err(ConsensusError::NoEligibleValidator)
    );
    let outcome = bc.run_round_with_draw(0, 3);
    assert_eq!(outcome.error, Some(ConsensusError::NoEligibleValidator));
}

#[test]
fn select_validator_picks_a_positive_weight_holder() {
    let mut bc = Blockchain::new(5);
    bc.add_validator("Only".to_string(), 7, 10);
    assert_eq!(bc.select_validator(), Ok("Only".to_string()));
}

#[test]
fn run_round_with_ambient_randomness_appends() {
    let mut bc = standard_setup();
    let outcome = bc.run_round(12345);
    assert!(outcome.error.is_none());
    let block = outcome.appended.expect("a block was appended");
    assert_eq!(block.timestamp, 12345);
    assert_eq!(bc.blocks.len(), 1);
    assert_eq!(bc.current_period, 1);
}

#[test]
fn registration_is_an_upsert_that_resets_fields() {
    let mut bc = Blockchain::new(5);
    bc.add_validator("V".to_string(), 10, 3);
    bc.add_token_holder("H".to_string(), 40, Some("V".to_string()));
    bc.aggregate_delegations();
    for _ in 0..5 {
        bc.rotate_validators();
    }
    assert!(bc.validators[0].reputation < 10);
    bc.add_validator("V".to_string(), 25, 4);
    assert_eq!(bc.validators.len(), 1);
    assert_eq!(bc.validators[0].stake, 25);
    assert_eq!(bc.validators[0].rotation_period, 4);
    assert_eq!(bc.validators[0].delegated_stake, 0);
    assert_eq!(bc.validators[0].reputation, 10);
    assert_eq!(bc.validators[0].last_block_validated, 0);
    bc.add_token_holder("H".to_string(), 60, None);
    assert_eq!(bc.token_holders.len(), 1);
    assert_eq!(bc.token_holders[0].stake, 60);
    assert!(bc.token_holders[0].delegated_to.is_none());
}

#[test]
fn pending_blocks_behave_as_a_set() {
    let mut bc = Blockchain::new(5);
    let a = Block::new(0, "payload".to_string(), "A".to_string(), 0, String::new());
    let same = Block::new(0, "payload".to_string(), "A".to_string(), 0, String::new());
    let other = Block::new(1, "payload".to_string(), "A".to_string(), 0, String::new());
    bc.add_pending_block(a);
    bc.add_pending_block(same);
    assert_eq!(bc.pending_blocks.len(), 1);
    bc.add_pending_block(other);
    assert_eq!(bc.pending_blocks.len(), 2);
    // a successful validation clears the candidates
    bc.add_validator("A".to_string(), 10, 10);
    let b = Block::new(0, "payload".to_string(), "A".to_string(), 0, String::new());
    assert!(bc.validate_and_append(b).is_ok());
    assert!(bc.pending_blocks.is_empty());
}

#[test]
fn flagging_is_idempotent() {
    let mut bc = Blockchain::new(5);
    bc.security.flag_malicious(&"Rogue".to_string());
    bc.security.flag_malicious(&"Rogue".to_string());
    assert_eq!(bc.security.flagged.len(), 1);
    assert!(bc.security.contains_flag(&"Rogue".to_string()));
    assert!(!bc.security.contains_flag(&"Honest".to_string()));
}

#[test]
fn penalties_accumulate_per_identity() {
    let mut bc = Blockchain::new(5);
    let rogue = "Rogue".to_string();
    let other = "Other".to_string();
    bc.security.penalize(&rogue, 3);
    bc.security.penalize(&rogue, 4);
    bc.security.penalize(&other, 1);
    assert_eq!(bc.security.penalty_for(&rogue), 7);
    assert_eq!(bc.security.penalty_for(&other), 1);
    assert_eq!(bc.security.penalty_for(&"Absent".to_string()), 0);
}
