use commitlabs::{
    Address, AttestationEngineContract, CommitmentCoreContract, CommitmentError, CommitmentNFTContract,
    CommitmentRules, CommitmentType,
};

const DAY: u64 = 86400;
const START: u64 = 1000;

fn admin() -> Address {
    Address::new(0, 1)
}

fn user() -> Address {
    Address::new(0, 2)
}

fn attester() -> Address {
    Address::new(0, 3)
}

fn default_rules(min_fee_threshold: i128) -> CommitmentRules {
    CommitmentRules {
        duration_days: 30,
        max_loss_percent: 10,
        commitment_type: CommitmentType::Balanced,
        early_exit_penalty: 5,
        min_fee_threshold,
        grace_period_days: 0,
    }
}

struct Harness {
    core: CommitmentCoreContract,
    nft: CommitmentNFTContract,
    engine: AttestationEngineContract,
}

fn harness() -> Harness {
    let core_address = Address::new(7, 1);
    let mut nft = CommitmentNFTContract::new();
    nft.initialize(admin()).unwrap();
    nft.set_core_contract(admin(), core_address).unwrap();
    let mut core = CommitmentCoreContract::new(core_address);
    core.initialize(admin(), Address::new(7, 2)).unwrap();
    let mut engine = AttestationEngineContract::new();
    engine.initialize(admin(), core_address).unwrap();
    engine.add_verifier(admin(), attester()).unwrap();
    engine.add_verifier(admin(), admin()).unwrap();
    Harness { core, nft, engine }
}

fn create(h: &mut Harness, amount: i128, min_fee_threshold: i128) -> String {
    h.core
        .create_commitment(&mut h.nft, user(), amount, Address::new(9, 9), default_rules(min_fee_threshold), amount, START)
        .unwrap()
}

fn fee(amount: i128) -> Vec<(String, i128)> {
    vec![(String::from("amount"), amount)]
}

#[test]
fn test_get_attestations_empty() {
    let h = harness();
    let attestations = h.engine.get_attestations(&String::from("test_commitment_1"));
    assert_eq!(attestations.len(), 0);
}

#[test]
fn test_get_attestations_returns_empty_vec_when_none_exist() {
    let h = harness();
    assert_eq!(h.engine.get_attestations(&String::from("commitment_1")).len(), 0);
    assert_eq!(h.engine.get_attestations(&String::from("commitment_2")).len(), 0);
}

#[test]
fn test_get_health_metrics_basic() {
    let mut h = harness();
    let id = create(&mut h, 1000, 100);
    h.core.update_value(admin(), &id, 950, START).unwrap();
    let metrics = h.engine.get_health_metrics(&h.core, &id).unwrap();
    assert_eq!(metrics.commitment_id, id);
    assert!(metrics.compliance_score <= 100);
}

#[test]
fn test_get_health_metrics_drawdown_calculation() {
    let mut h = harness();
    let id = create(&mut h, 1000, 1000);
    h.core.update_value(admin(), &id, 900, START).unwrap();
    let metrics = h.engine.get_health_metrics(&h.core, &id).unwrap();
    assert_eq!(metrics.drawdown_percent, 10);
}

#[test]
fn test_calculate_compliance_score_base() {
    let mut h = harness();
    let id = create(&mut h, 1000, 100);
    h.core.update_value(admin(), &id, 950, START).unwrap();
    let score = h.engine.calculate_compliance_score(&h.core, &id, START).unwrap();
    assert!(score <= 100);
}

#[test]
fn test_calculate_compliance_score_clamping() {
    let mut h = harness();
    let id = create(&mut h, 1000, 100);
    h.core.update_value(admin(), &id, 950, START).unwrap();
    let score = h.engine.calculate_compliance_score(&h.core, &id, START).unwrap();
    assert!(score <= 100);
}

#[test]
fn test_get_health_metrics_includes_compliance_score() {
    let mut h = harness();
    let id = create(&mut h, 1000, 100);
    h.core.update_value(admin(), &id, 950, START).unwrap();
    let metrics = h.engine.get_health_metrics(&h.core, &id).unwrap();
    assert!(metrics.compliance_score <= 100);
}

#[test]
fn test_get_health_metrics_last_attestation() {
    let mut h = harness();
    let id = create(&mut h, 1000, 1000);
    h.core.update_value(admin(), &id, 950, START).unwrap();
    let metrics = h.engine.get_health_metrics(&h.core, &id).unwrap();
    assert_eq!(metrics.last_attestation, 0);
}

#[test]
fn test_multiple_record_fees_cumulative_sum() {
    let mut h = harness();
    let id = create(&mut h, 1_000_000_000_000, 0);
    h.engine.record_fees(&h.core, attester(), &id, 10_0000000, START).unwrap();
    h.engine.record_fees(&h.core, attester(), &id, 20_0000000, START).unwrap();
    h.engine.record_fees(&h.core, attester(), &id, 5_0000000, START).unwrap();
    let metrics = h.engine.get_health_metrics(&h.core, &id).unwrap();
    assert_eq!(metrics.fees_generated, 35_0000000);
}

#[test]
fn test_record_fees_zero_amount() {
    let mut h = harness();
    let id = create(&mut h, 1_000_000_000_000, 0);
    h.engine.record_fees(&h.core, attester(), &id, 0, START).unwrap();
    let metrics = h.engine.get_health_metrics(&h.core, &id).unwrap();
    assert_eq!(metrics.fees_generated, 0);
}

#[test]
fn test_record_fees_large_amounts() {
    let mut h = harness();
    let id = create(&mut h, 1_000_000_000_000, 0);
    h.engine.record_fees(&h.core, attester(), &id, i128::MAX / 4, START).unwrap();
    h.engine.record_fees(&h.core, attester(), &id, i128::MAX / 4, START).unwrap();
    let metrics = h.engine.get_health_metrics(&h.core, &id).unwrap();
    assert!(metrics.fees_generated > 0);
}

#[test]
fn test_multiple_record_drawdown_latest_value() {
    let mut h = harness();
    let id = create(&mut h, 1_000_000_000_000, 0);
    h.engine.record_drawdown(&h.core, attester(), &id, 5, START).unwrap();
    h.engine.record_drawdown(&h.core, attester(), &id, 10, START).unwrap();
    h.engine.record_drawdown(&h.core, attester(), &id, 3, START).unwrap();
    let metrics = h.engine.get_health_metrics(&h.core, &id).unwrap();
    assert_eq!(metrics.drawdown_percent, 3);
}

#[test]
fn test_record_drawdown_compliance_check() {
    let mut h = harness();
    let id = create(&mut h, 1_000_000_000_000, 0);
    let result = h.engine.record_drawdown(&h.core, admin(), &id, 5, START);
    match result {
        Ok(_) => println!("record_drawdown succeeded"),
        Err(e) => println!("record_drawdown failed: {:?}", e),
    }
    let metrics = h.engine.get_health_metrics(&h.core, &id).unwrap();
    println!("Actual drawdown_percent: {}", metrics.drawdown_percent);
    println!("Actual fees_generated: {}", metrics.fees_generated);
    println!("Actual compliance_score: {}", metrics.compliance_score);
    assert_eq!(metrics.drawdown_percent, 5);
    let is_compliant = h.engine.verify_compliance(&h.core, &id, START).unwrap();
    assert!(is_compliant);
}

#[test]
fn test_record_drawdown_non_compliant() {
    let mut h = harness();
    let id = create(&mut h, 1_000_000_000_000, 0);
    h.engine.record_drawdown(&h.core, attester(), &id, 15, START).unwrap();
    let metrics = h.engine.get_health_metrics(&h.core, &id).unwrap();
    assert_eq!(metrics.drawdown_percent, 15);
    let is_compliant = h.engine.verify_compliance(&h.core, &id, START).unwrap();
    assert!(!is_compliant);
}

#[test]
fn test_health_metrics_persistence() {
    let mut h = harness();
    let id = create(&mut h, 1_000_000_000_000, 0);
    h.engine.record_fees(&h.core, attester(), &id, 15_0000000, START).unwrap();
    h.engine.record_drawdown(&h.core, attester(), &id, 7, START).unwrap();
    let metrics1 = h.engine.get_health_metrics(&h.core, &id).unwrap();
    let metrics2 = h.engine.get_health_metrics(&h.core, &id).unwrap();
    assert_eq!(metrics1.fees_generated, metrics2.fees_generated);
    assert_eq!(metrics1.drawdown_percent, metrics2.drawdown_percent);
    assert_eq!(metrics1.compliance_score, metrics2.compliance_score);
    assert_eq!(metrics1.commitment_id, metrics2.commitment_id);
}

#[test]
fn test_single_attestation_types() {
    let mut h = harness();
    let id = create(&mut h, 1_000_000_000_000, 0);
    h.engine.record_fees(&h.core, attester(), &id, 25_0000000, START).unwrap();
    let metrics = h.engine.get_health_metrics(&h.core, &id).unwrap();
    assert_eq!(metrics.fees_generated, 25_0000000);
    let id2 = h
        .core
        .create_commitment(&mut h.nft, Address::new(0, 8), 1_000_000_000_000, Address::new(9, 9), default_rules(0), 1_000_000_000_000, START)
        .unwrap();
    h.engine.record_drawdown(&h.core, attester(), &id2, 12, START).unwrap();
    let metrics2 = h.engine.get_health_metrics(&h.core, &id2).unwrap();
    assert_eq!(metrics2.drawdown_percent, 12);
}

#[test]
fn fee_attestations_add_up() {
    let mut h = harness();
    let id = create(&mut h, 1000, 0);
    h.engine.attest(&h.core, attester(), &id, String::from("fee_generation"), fee(10), true, START).unwrap();
    h.engine.attest(&h.core, attester(), &id, String::from("fee_generation"), fee(20), true, START + 5).unwrap();
    let metrics = h.engine.get_health_metrics(&h.core, &id).unwrap();
    assert_eq!(metrics.fees_generated, 30);
    assert_eq!(metrics.last_attestation, START + 5);
    let log = h.engine.get_attestations(&id);
    assert_eq!(log.len(), 2);
    assert_eq!(log[0].data, fee(10));
    assert_eq!(log[1].data, fee(20));
}

#[test]
fn drawdown_is_last_write_wins() {
    let mut h = harness();
    let id = create(&mut h, 1000, 0);
    h.engine.record_drawdown(&h.core, attester(), &id, 5, START).unwrap();
    h.engine.record_drawdown(&h.core, attester(), &id, 15, START).unwrap();
    assert_eq!(h.engine.get_health_metrics(&h.core, &id).unwrap().drawdown_percent, 15);
}

#[test]
fn fees_saturate() {
    let mut h = harness();
    let id = create(&mut h, 1000, 0);
    h.engine.record_fees(&h.core, attester(), &id, i128::MAX, START).unwrap();
    h.engine.record_fees(&h.core, attester(), &id, 5, START).unwrap();
    assert_eq!(h.engine.get_health_metrics(&h.core, &id).unwrap().fees_generated, i128::MAX);
}

#[test]
fn attest_checks_verifier_and_input() {
    let mut h = harness();
    let id = create(&mut h, 1000, 0);
    let stranger = Address::new(0, 9);
    let r = h.engine.attest(&h.core, stranger, &id, String::from("health_check"), Vec::new(), true, START);
    assert_eq!(r, Err(CommitmentError::Unauthorized));
    let r = h.engine.attest(&h.core, attester(), &String::from("c_42"), String::from("health_check"), Vec::new(), true, START);
    assert_eq!(r, Err(CommitmentError::CommitmentNotFound));
    assert_eq!(h.engine.record_fees(&h.core, attester(), &id, -1, START), Err(CommitmentError::InvalidAmount));
    h.engine.remove_verifier(admin(), attester()).unwrap();
    assert!(!h.engine.is_verifier(attester()));
    assert_eq!(h.engine.record_fees(&h.core, attester(), &id, 1, START), Err(CommitmentError::Unauthorized));
    let r = h.engine.attest(&h.core, Address::new(0, 77), &id, String::from("health_check"), Vec::new(), true, START);
    assert_eq!(r, Err(CommitmentError::Unauthorized));
    let mut fresh = AttestationEngineContract::new();
    assert_eq!(fresh.record_fees(&h.core, attester(), &id, 1, START), Err(CommitmentError::NotInitialized));
    assert_eq!(fresh.initialize(admin(), Address::new(7, 1)), Ok(()));
    assert_eq!(fresh.initialize(admin(), Address::new(7, 1)), Err(CommitmentError::AlreadyInitialized));
    // the admin manages the whitelist but is not on it
    assert_eq!(fresh.record_fees(&h.core, admin(), &id, 1, START), Err(CommitmentError::Unauthorized));
}

#[test]
fn score_of_fresh_commitment_is_full() {
    let mut h = harness();
    let id = create(&mut h, 1000, 0);
    assert_eq!(h.engine.get_health_metrics(&h.core, &id).unwrap().compliance_score, 0);
    assert_eq!(h.engine.calculate_compliance_score(&h.core, &id, START), Ok(100));
    assert_eq!(h.engine.get_health_metrics(&h.core, &id).unwrap().compliance_score, 100);
}

#[test]
fn score_counts_adverse_attestations_and_excess_loss() {
    let mut h = harness();
    let id = create(&mut h, 1000, 0);
    h.engine.attest(&h.core, attester(), &id, String::from("violation"), Vec::new(), true, START).unwrap();
    assert_eq!(h.engine.calculate_compliance_score(&h.core, &id, START), Ok(90));
    h.core.update_value(admin(), &id, 850, START).unwrap();
    // 100 - 20 - (15 - 10) + 10
    assert_eq!(h.engine.calculate_compliance_score(&h.core, &id, START), Ok(85));
    h.engine.attest(&h.core, attester(), &id, String::from("health_check"), Vec::new(), false, START).unwrap();
    // past the term: no on-track bonus
    assert_eq!(h.engine.calculate_compliance_score(&h.core, &id, START + 61 * DAY), Ok(55));
}

#[test]
fn score_fee_bonus_is_capped() {
    let mut h = harness();
    let id = create(&mut h, 1000, 200);
    for _ in 0..4 {
        h.engine.attest(&h.core, attester(), &id, String::from("violation"), Vec::new(), true, START).unwrap();
    }
    // 100 - 80 + 10
    assert_eq!(h.engine.calculate_compliance_score(&h.core, &id, START), Ok(30));
    h.engine.record_fees(&h.core, attester(), &id, 50, START).unwrap();
    // + 50 * 100 / 200 = 25
    assert_eq!(h.engine.calculate_compliance_score(&h.core, &id, START), Ok(55));
    h.engine.record_fees(&h.core, attester(), &id, 1000, START).unwrap();
    // + 100 at most
    assert_eq!(h.engine.calculate_compliance_score(&h.core, &id, START), Ok(100));
}

#[test]
fn compliance_follows_status() {
    let mut h = harness();
    let a = create(&mut h, 1000, 0);
    assert_eq!(h.engine.verify_compliance(&h.core, &a, START), Ok(true));
    assert_eq!(h.engine.verify_compliance(&h.core, &a, START + 30 * DAY), Ok(false));
    h.core.settle(&mut h.nft, &a, START + 30 * DAY).unwrap();
    assert_eq!(h.engine.verify_compliance(&h.core, &a, START + 30 * DAY), Ok(true));
    let b = create(&mut h, 1000, 0);
    h.core.update_value(admin(), &b, 500, START).unwrap();
    assert_eq!(h.engine.verify_compliance(&h.core, &b, START), Ok(false));
    let c = create(&mut h, 1000, 0);
    h.core.early_exit(&mut h.nft, &c, user()).unwrap();
    assert_eq!(h.engine.verify_compliance(&h.core, &c, START), Ok(false));
    let d = create(&mut h, 1000, 500);
    assert_eq!(h.engine.verify_compliance(&h.core, &d, START), Ok(false));
    assert_eq!(h.engine.verify_compliance(&h.core, &String::from("nope"), START), Err(CommitmentError::CommitmentNotFound));
}

#[test]
fn test_attest() {
    let mut h = harness();
    let rules = CommitmentRules {
        duration_days: 10,
        max_loss_percent: 20,
        commitment_type: CommitmentType::Safe,
        early_exit_penalty: 0,
        min_fee_threshold: 0,
        grace_period_days: 0,
    };
    let id = h.core.create_commitment(&mut h.nft, user(), 1_000, Address::new(9, 9), rules, 1_000, 0).unwrap();
    h.engine.attest(&h.core, attester(), &id, String::from("health_check"), Vec::new(), true, 0).unwrap();
    let atts = h.engine.get_attestations(&id);
    assert!(atts.len() == 1);
}

#[test]
fn test_verify_compliance() {
    let mut h = harness();
    let rules = CommitmentRules {
        duration_days: 10,
        max_loss_percent: 20,
        commitment_type: CommitmentType::Safe,
        early_exit_penalty: 0,
        min_fee_threshold: 100,
        grace_period_days: 0,
    };
    // Happy path: in-range drawdown, not expired, fees meet threshold, no violations.
    let id = h.core.create_commitment(&mut h.nft, user(), 1_000, Address::new(9, 9), rules, 1_000, 0).unwrap();
    h.core.update_value(admin(), &id, 900, 50).unwrap();
    h.engine.record_fees(&h.core, attester(), &id, 100, 50).unwrap();
    assert!(h.engine.verify_compliance(&h.core, &id, 50).unwrap());
    // Duration expired
    assert!(!h.engine.verify_compliance(&h.core, &id, 10 * DAY).unwrap());
    // Fee threshold not met: a fresh commitment has no fees
    let id2 = h.core.create_commitment(&mut h.nft, user(), 1_000, Address::new(9, 9), rules, 1_000, 0).unwrap();
    h.core.update_value(admin(), &id2, 900, 50).unwrap();
    assert!(!h.engine.verify_compliance(&h.core, &id2, 50).unwrap());
    // Loss limit exceeded
    h.core.update_value(admin(), &id, 700, 50).unwrap();
    assert!(!h.engine.verify_compliance(&h.core, &id, 50).unwrap());
}

#[test]
fn test_attest_and_get_metrics() {
    let mut h = harness();
    let id = create(&mut h, 1000, 1000);
    let data = vec![(String::from("note"), 1)];
    h.engine.attest(&h.core, admin(), &id, String::from("general"), data, true, 12345).unwrap();
    let attestations = h.engine.get_attestations(&id);
    assert_eq!(attestations.len(), 1);
    assert_eq!(attestations[0].attestation_type, "general");
    let metrics = h.engine.get_health_metrics(&h.core, &id).unwrap();
    assert!(metrics.last_attestation > 0);
}

#[test]
fn test_health_metrics_structure() {
    let mut h = harness();
    let id = create(&mut h, 1000, 1000);
    let metrics = h.engine.get_health_metrics(&h.core, &id).unwrap();
    assert_eq!(metrics.commitment_id, id);
    assert_eq!(metrics.current_value, 1000);
    assert_eq!(metrics.initial_value, 1000);
    assert_eq!(metrics.drawdown_percent, 0);
    assert_eq!(metrics.fees_generated, 0);
    assert_eq!(metrics.last_attestation, 0);
    assert!(metrics.compliance_score <= 100);
}
