use commitlabs::{
    generate_commitment_id, Address, CommitmentCoreContract, CommitmentError, CommitmentNFTContract,
    CommitmentRules, CommitmentType, ContractError, Operation, Status,
};

const DAY: u64 = 86400;
const START: u64 = 1000;

fn admin() -> Address {
    Address::new(0, 1)
}

fn owner() -> Address {
    Address::new(0, 2)
}

fn core_address() -> Address {
    Address::new(7, 1)
}

fn nft_address() -> Address {
    Address::new(7, 2)
}

fn rules(duration_days: u32, max_loss_percent: u32) -> CommitmentRules {
    CommitmentRules {
        duration_days,
        max_loss_percent,
        commitment_type: CommitmentType::Balanced,
        early_exit_penalty: 10,
        min_fee_threshold: 1000,
        grace_period_days: 0,
    }
}

fn setup() -> (CommitmentCoreContract, CommitmentNFTContract) {
    let mut nft = CommitmentNFTContract::new();
    nft.initialize(admin()).unwrap();
    nft.set_core_contract(admin(), core_address()).unwrap();
    let mut core = CommitmentCoreContract::new(core_address());
    core.initialize(admin(), nft_address()).unwrap();
    (core, nft)
}

/// A ledger holding one commitment of 1000 created at `START`, whose value
/// was then reported as `current_value`.
fn with_commitment(current_value: i128, max_loss_percent: u32, duration_days: u32) -> (CommitmentCoreContract, CommitmentNFTContract, String) {
    let (mut core, mut nft) = setup();
    let id = core
        .create_commitment(&mut nft, owner(), 1000, Address::new(9, 9), rules(duration_days, max_loss_percent), 10_000, START)
        .unwrap();
    if current_value != 1000 {
        core.update_value(admin(), &id, current_value, START).unwrap();
    }
    (core, nft, id)
}

fn active_sum(core: &CommitmentCoreContract) -> i128 {
    let mut sum = 0;
    for c in core.commitments.iter() {
        if c.status == Status::Active {
            sum += c.current_value;
        }
    }
    sum
}

#[test]
fn tests_test_initialize() {
    let (mut core, _nft) = setup();
    assert_eq!(core.get_admin(), Ok(admin()));
    assert_eq!(core.get_nft_contract(), Ok(nft_address()));
    assert_eq!(core.initialize(admin(), nft_address()), Err(CommitmentError::AlreadyInitialized));
    assert_eq!(core.get_total_commitments(), 0);
    assert_eq!(core.get_total_value_locked(), 0);
}

#[test]
fn test_create_commitment() {
    let (mut core, mut nft) = setup();
    let id = core
        .create_commitment(&mut nft, owner(), 1000, Address::new(9, 9), rules(30, 10), 5000, START)
        .unwrap();
    assert_eq!(id, "c_0");
    assert_eq!(core.get_total_commitments(), 1);
    assert_eq!(core.get_total_value_locked(), 1000);
    assert_eq!(core.get_owner_commitments(owner()), vec![String::from("c_0")]);
    let c = core.get_commitment(&id).unwrap();
    assert_eq!(c.amount, 1000);
    assert_eq!(c.current_value, 1000);
    assert_eq!(c.status, Status::Active);
    assert_eq!(c.expires_at, START + 30 * DAY);
    assert_eq!(c.nft_token_id, 0);
    assert_eq!(nft.total_supply(), 1);
    assert_eq!(nft.owner_of(0), Ok(owner()));
    assert_eq!(nft.is_active(0), Ok(true));
    assert_eq!(nft.balance_of(owner()), 1);
    let second = core
        .create_commitment(&mut nft, owner(), 500, Address::new(9, 9), rules(30, 10), 5000, START)
        .unwrap();
    assert_eq!(second, "c_1");
    assert_eq!(core.get_total_value_locked(), 1500);
}

#[test]
fn test_settle() {
    let (mut core, mut nft, id) = with_commitment(1000, 10, 30);
    let paid = core.settle(&mut nft, &id, START + 30 * DAY).unwrap();
    assert_eq!(paid, 1000);
    let c = core.get_commitment(&id).unwrap();
    assert_eq!(c.status, Status::Settled);
    assert_eq!(c.current_value, 0);
    assert_eq!(core.get_total_value_locked(), 0);
    assert!(core.get_owner_commitments(owner()).is_empty());
    assert_eq!(nft.is_active(0), Ok(false));
}

#[test]
fn test_check_violations_no_violations() {
    let (core, _nft, id) = with_commitment(950, 10, 30);
    let has_violations = core.check_violations(&id, START + 15 * DAY).unwrap();
    assert!(!has_violations, "Should not have violations");
}

#[test]
fn test_check_violations_duration_expired() {
    let (core, _nft, id) = with_commitment(980, 10, 30);
    let has_violations = core.check_violations(&id, START + 31 * DAY).unwrap();
    assert!(has_violations, "Should have duration violation");
}

#[test]
fn test_get_violation_details_no_violations() {
    let (core, _nft, id) = with_commitment(950, 10, 30);
    let (has, loss, duration, loss_percent, remaining) = core.get_violation_details(&id, START + 15 * DAY).unwrap();
    assert!(!has, "Should not have violations");
    assert!(!loss, "Loss should not be violated");
    assert!(!duration, "Duration should not be violated");
    assert_eq!(loss_percent, 5, "Loss percent should be 5%");
    assert!(remaining > 0, "Time should remain");
    assert_eq!(remaining, 15 * DAY);
}

#[test]
fn test_get_violation_details_loss_violation() {
    let (core, _nft, id) = with_commitment(850, 10, 30);
    let (has, loss, duration, loss_percent, _remaining) = core.get_violation_details(&id, START + 15 * DAY).unwrap();
    assert!(has, "Should have violations");
    assert!(loss, "Loss should be violated");
    assert!(!duration, "Duration should not be violated");
    assert_eq!(loss_percent, 15, "Loss percent should be 15%");
}

#[test]
fn test_get_violation_details_duration_violation() {
    let (core, _nft, id) = with_commitment(980, 10, 30);
    let (has, loss, duration, _loss_percent, remaining) = core.get_violation_details(&id, START + 31 * DAY).unwrap();
    assert!(has, "Should have violations");
    assert!(!loss, "Loss should not be violated");
    assert!(duration, "Duration should be violated");
    assert_eq!(remaining, 0, "Time remaining should be 0");
}

#[test]
#[should_panic]
fn test_check_violations_not_found() {
    let (core, _nft) = setup();
    core.check_violations(&String::from("nonexistent"), START).unwrap();
}

#[test]
fn test_check_violations_edge_case_exact_loss_limit() {
    let (core, _nft, id) = with_commitment(900, 10, 30);
    let has_violations = core.check_violations(&id, START + 15 * DAY).unwrap();
    assert!(!has_violations, "Exactly at limit should not violate");
}

#[test]
fn test_check_violations_edge_case_exact_expiry() {
    let (core, _nft, id) = with_commitment(950, 10, 30);
    let expires_at = core.get_commitment(&id).unwrap().expires_at;
    let has_violations = core.check_violations(&id, expires_at).unwrap();
    assert!(has_violations, "At expiry time should violate");
}

#[test]
fn value_locked_tracks_active_values_through_a_sequence() {
    let (mut core, mut nft) = setup();
    let a = core.create_commitment(&mut nft, owner(), 1000, Address::new(9, 9), rules(30, 50), 10_000, START).unwrap();
    assert_eq!(core.get_total_value_locked(), active_sum(&core));
    let b = core.create_commitment(&mut nft, owner(), 2000, Address::new(9, 9), rules(10, 50), 10_000, START).unwrap();
    assert_eq!(core.get_total_value_locked(), active_sum(&core));
    let c = core.create_commitment(&mut nft, Address::new(0, 3), 3000, Address::new(9, 9), rules(60, 50), 10_000, START).unwrap();
    assert_eq!(core.get_total_value_locked(), active_sum(&core));
    core.update_value(admin(), &a, 800, START).unwrap();
    assert_eq!(core.get_total_value_locked(), active_sum(&core));
    core.allocate(&c, Address::new(5, 5), 1200, START).unwrap();
    assert_eq!(core.get_total_value_locked(), active_sum(&core));
    core.settle(&mut nft, &b, START + 10 * DAY).unwrap();
    assert_eq!(core.get_total_value_locked(), active_sum(&core));
    core.early_exit(&mut nft, &a, owner()).unwrap();
    assert_eq!(core.get_total_value_locked(), active_sum(&core));
    assert_eq!(core.get_total_value_locked(), 1800);
}

#[test]
fn round_trip_returns_locked_amount() {
    let (mut core, mut nft, id) = with_commitment(1000, 10, 30);
    assert_eq!(core.settle(&mut nft, &id, START + 30 * DAY + 1), Ok(1000));
}

#[test]
fn settle_twice_fails_already_settled() {
    let (mut core, mut nft, id) = with_commitment(1000, 10, 30);
    core.settle(&mut nft, &id, START + 30 * DAY).unwrap();
    assert_eq!(core.settle(&mut nft, &id, START + 31 * DAY), Err(CommitmentError::AlreadySettled));
    assert_eq!(core.early_exit(&mut nft, &id, owner()), Err(CommitmentError::NotActive));
}

#[test]
fn loss_at_threshold_is_compliant() {
    let (mut core, _nft, id) = with_commitment(1000, 10, 30);
    assert_eq!(core.update_value(admin(), &id, 900, START), Ok(false));
    assert_eq!(core.get_commitment(&id).unwrap().status, Status::Active);
    assert_eq!(core.get_violation_details(&id, START).unwrap().3, 10);
    assert_eq!(core.update_value(admin(), &id, 890, START), Ok(true));
    assert_eq!(core.get_commitment(&id).unwrap().status, Status::Violated);
}

#[test]
fn loss_one_point_over_threshold_is_violated() {
    let (core, _nft, id) = with_commitment(890, 10, 30);
    assert_eq!(core.get_violation_details(&id, START).unwrap().3, 11);
    assert_eq!(core.get_commitment(&id).unwrap().status, Status::Violated);
}

#[test]
fn fresh_commitment_has_no_violation() {
    let (mut core, mut nft) = setup();
    let id = core
        .create_commitment(&mut nft, owner(), 1000, Address::new(9, 9), rules(30, 10), 1000, START)
        .unwrap();
    assert_eq!(core.check_violations(&id, START), Ok(false));
}

#[test]
fn large_loss_violates_and_lowers_value_locked() {
    let (mut core, _nft, id) = with_commitment(1000, 10, 30);
    let before = core.get_total_value_locked();
    assert_eq!(core.update_value(admin(), &id, 700, START), Ok(true));
    assert_eq!(core.get_commitment(&id).unwrap().status, Status::Violated);
    assert_eq!(core.get_total_value_locked(), before - 300);
}

#[test]
fn settle_before_expiry_fails_then_pays_current_value() {
    let (mut core, mut nft, id) = with_commitment(950, 10, 30);
    assert_eq!(core.settle(&mut nft, &id, START + 29 * DAY), Err(CommitmentError::NotExpired));
    assert_eq!(core.settle(&mut nft, &id, START + 30 * DAY), Ok(950));
    assert_eq!(core.get_commitment(&id).unwrap().status, Status::Settled);
}

#[test]
fn early_exit_withholds_penalty() {
    let (mut core, mut nft, id) = with_commitment(1000, 10, 30);
    assert_eq!(core.early_exit(&mut nft, &id, Address::new(0, 3)), Err(CommitmentError::Unauthorized));
    assert_eq!(core.early_exit(&mut nft, &id, owner()), Ok((100, 900)));
    let c = core.get_commitment(&id).unwrap();
    assert_eq!(c.status, Status::EarlyExit);
    assert_eq!(c.current_value, 0);
    assert_eq!(core.get_total_value_locked(), 0);
    assert_eq!(nft.is_active(0), Ok(false));
    assert!(core.get_owner_commitments(owner()).is_empty());
}

#[test]
fn allocate_moves_value_out() {
    let (mut core, _nft, id) = with_commitment(1000, 10, 30);
    assert_eq!(core.allocate(&id, Address::new(5, 5), 0, START), Err(CommitmentError::InvalidAmount));
    assert_eq!(core.allocate(&id, Address::new(5, 5), 1001, START), Err(CommitmentError::InsufficientBalance));
    core.allocate(&id, Address::new(5, 5), 400, START).unwrap();
    let c = core.get_commitment(&id).unwrap();
    assert_eq!(c.current_value, 600);
    assert_eq!(c.status, Status::Active);
    assert_eq!(core.get_total_value_locked(), 600);
}

#[test]
fn create_rejects_invalid_input() {
    let (mut core, mut nft) = setup();
    let asset = Address::new(9, 9);
    assert_eq!(core.create_commitment(&mut nft, Address::zero(), 1000, asset, rules(30, 10), 5000, START), Err(CommitmentError::ZeroAddress));
    assert_eq!(core.create_commitment(&mut nft, owner(), 0, asset, rules(30, 10), 5000, START), Err(CommitmentError::InvalidAmount));
    assert_eq!(core.create_commitment(&mut nft, owner(), 1000, asset, rules(0, 10), 5000, START), Err(CommitmentError::InvalidDuration));
    assert_eq!(core.create_commitment(&mut nft, owner(), 1000, asset, rules(30, 101), 5000, START), Err(CommitmentError::InvalidMaxLossPercent));
    assert_eq!(core.create_commitment(&mut nft, owner(), 1000, asset, rules(30, 10), 999, START), Err(CommitmentError::InsufficientBalance));
    assert_eq!(core.create_commitment(&mut nft, owner(), 1000, asset, rules(30, 10), 5000, u64::MAX - 10), Err(CommitmentError::ExpirationOverflow));
    assert_eq!(core.get_total_commitments(), 0);
    assert_eq!(nft.total_supply(), 0);
}

#[test]
fn create_fails_when_registry_refuses_to_mint() {
    let mut nft = CommitmentNFTContract::new();
    nft.initialize(admin()).unwrap();
    let mut core = CommitmentCoreContract::new(core_address());
    core.initialize(admin(), nft_address()).unwrap();
    let r = core.create_commitment(&mut nft, owner(), 1000, Address::new(9, 9), rules(30, 10), 5000, START);
    assert_eq!(r, Err(CommitmentError::MintingFailed));
    assert_eq!(core.get_total_commitments(), 0);
}

#[test]
fn create_needs_initialization() {
    let mut nft = CommitmentNFTContract::new();
    let mut core = CommitmentCoreContract::new(core_address());
    let r = core.create_commitment(&mut nft, owner(), 1000, Address::new(9, 9), rules(30, 10), 5000, START);
    assert_eq!(r, Err(CommitmentError::NotInitialized));
}

#[test]
fn paused_ledger_refuses_mutations() {
    let (mut core, mut nft, id) = with_commitment(1000, 10, 30);
    assert_eq!(core.pause(owner()), Err(CommitmentError::Unauthorized));
    core.pause(admin()).unwrap();
    assert!(core.is_paused());
    assert_eq!(core.settle(&mut nft, &id, START + 30 * DAY), Err(CommitmentError::ContractPaused));
    assert_eq!(core.allocate(&id, Address::new(5, 5), 1, START), Err(CommitmentError::ContractPaused));
    core.unpause(admin()).unwrap();
    assert_eq!(core.settle(&mut nft, &id, START + 30 * DAY), Ok(1000));
}

#[test]
fn settle_fails_when_token_registry_refuses() {
    let (mut core, mut nft, id) = with_commitment(1000, 10, 30);
    nft.pause(admin()).unwrap();
    assert_eq!(core.settle(&mut nft, &id, START + 30 * DAY), Err(CommitmentError::InvalidStatus));
    assert_eq!(core.get_commitment(&id).unwrap().status, Status::Active);
    assert_eq!(core.get_total_value_locked(), 1000);
}

#[test]
fn value_updates_need_an_authorized_caller() {
    let (mut core, _nft, id) = with_commitment(1000, 10, 30);
    let updater = Address::new(0, 4);
    assert_eq!(core.update_value(updater, &id, 950, START), Err(CommitmentError::Unauthorized));
    core.add_updater(admin(), updater).unwrap();
    assert_eq!(core.get_authorized_updaters(), vec![updater]);
    assert_eq!(core.update_value(updater, &id, 950, START), Ok(false));
    core.remove_updater(admin(), updater).unwrap();
    assert_eq!(core.update_value(updater, &id, 960, START), Err(CommitmentError::Unauthorized));
    let allocator = Address::new(0, 5);
    core.set_allocation_contract(admin(), allocator).unwrap();
    assert_eq!(core.get_allocation_contract(), Some(allocator));
    assert_eq!(core.update_value(allocator, &id, 960, START), Ok(false));
    assert_eq!(core.update_value(admin(), &id, -1, START), Err(CommitmentError::InvalidAmount));
    assert_eq!(core.update_value(admin(), &String::from("c_9"), 1, START), Err(CommitmentError::CommitmentNotFound));
    core.update_value(admin(), &id, 100, START).unwrap();
    assert_eq!(core.update_value(admin(), &id, 100, START), Err(CommitmentError::NotActive));
}

#[test]
fn commitment_ids_count_up() {
    assert_eq!(generate_commitment_id(0), "c_0");
    assert_eq!(generate_commitment_id(7), "c_7");
    assert_eq!(generate_commitment_id(123), "c_123");
    assert_eq!(generate_commitment_id(u64::MAX), "c_18446744073709551615");
}

#[test]
fn error_messages_are_readable() {
    assert_eq!(CommitmentError::ZeroAddress.message(), "Zero address is not allowed");
    assert_eq!(CommitmentError::NotExpired.message(), "Commitment has not expired yet");
}

#[test]
fn commitment_type_names() {
    assert_eq!(CommitmentType::from_name(&String::from("safe")), Some(CommitmentType::Safe));
    assert_eq!(CommitmentType::from_name(&String::from("balanced")), Some(CommitmentType::Balanced));
    assert_eq!(CommitmentType::from_name(&String::from("aggressive")), Some(CommitmentType::Aggressive));
    assert_eq!(CommitmentType::from_name(&String::from("invalid_type")), None);
}

#[test]
fn registry_error_is_distinct_type() {
    let nft = CommitmentNFTContract::new();
    assert_eq!(nft.owner_of(999), Err(ContractError::TokenNotFound));
}

#[test]
fn creation_is_rate_limited_per_owner() {
    let (mut core, mut nft) = setup();
    let asset = Address::new(9, 9);
    assert_eq!(core.set_rate_limit(owner(), Operation::Create, 100, 2), Err(CommitmentError::Unauthorized));
    core.set_rate_limit(admin(), Operation::Create, 100, 2).unwrap();
    core.create_commitment(&mut nft, owner(), 10, asset, rules(30, 10), 1000, START).unwrap();
    core.create_commitment(&mut nft, owner(), 10, asset, rules(30, 10), 1000, START + 10).unwrap();
    let third = core.create_commitment(&mut nft, owner(), 10, asset, rules(30, 10), 1000, START + 20);
    assert_eq!(third, Err(CommitmentError::RateLimitExceeded));
    // another owner has its own budget
    core.create_commitment(&mut nft, Address::new(0, 3), 10, asset, rules(30, 10), 1000, START + 20).unwrap();
    // a new window opens once the previous one has ended
    core.create_commitment(&mut nft, owner(), 10, asset, rules(30, 10), 1000, START + 100).unwrap();
    core.set_rate_limit_exempt(admin(), owner(), true).unwrap();
    core.create_commitment(&mut nft, owner(), 10, asset, rules(30, 10), 1000, START + 101).unwrap();
    core.create_commitment(&mut nft, owner(), 10, asset, rules(30, 10), 1000, START + 102).unwrap();
    assert_eq!(core.get_total_commitments(), 6);
}

#[test]
fn value_updates_are_rate_limited() {
    let (mut core, _nft, id) = with_commitment(1000, 50, 30);
    core.set_rate_limit(admin(), Operation::UpdateValue, 60, 1).unwrap();
    assert_eq!(core.update_value(admin(), &id, 990, START), Ok(false));
    assert_eq!(core.update_value(admin(), &id, 980, START + 59), Err(CommitmentError::RateLimitExceeded));
    assert_eq!(core.update_value(admin(), &id, 980, START + 60), Ok(false));
    core.set_rate_limit(admin(), Operation::Allocate, 60, 0).unwrap();
    assert_eq!(core.allocate(&id, Address::new(5, 5), 1, START), Err(CommitmentError::RateLimitExceeded));
}

#[test]
fn test_check_violations_loss_limit_exceeded() {
    let (mut core, _nft, id) = with_commitment(1000, 10, 30);
    core.allocate(&id, Address::new(5, 5), 150, START).unwrap();
    assert_eq!(core.get_commitment(&id).unwrap().current_value, 850);
    let has_violations = core.check_violations(&id, START).unwrap();
    assert!(has_violations, "Should have loss limit violation");
}

#[test]
fn test_check_violations_both_violations() {
    let (mut core, _nft, id) = with_commitment(1000, 10, 30);
    core.allocate(&id, Address::new(5, 5), 200, START).unwrap();
    assert_eq!(core.get_commitment(&id).unwrap().current_value, 800);
    let has_violations = core.check_violations(&id, START + 31 * DAY).unwrap();
    assert!(has_violations, "Should have both violations");
}

#[test]
fn not_found_message() {
    assert_eq!(CommitmentError::CommitmentNotFound.message(), "Commitment not found");
    assert_eq!(CommitmentError::AlreadySettled.message(), "Commitment already settled");
    assert_eq!(CommitmentError::NotActive.message(), "Commitment is not active");
}

#[test]
fn initialize_starts_empty_and_unpaused() {
    let (core, _nft) = setup();
    assert_eq!(core.get_total_commitments(), 0);
    assert_eq!(core.get_total_value_locked(), 0);
    assert!(!core.is_paused());
}

#[test]
fn adding_an_updater_twice_keeps_the_list() {
    let (mut core, _nft) = setup();
    core.add_updater(admin(), Address::new(0, 4)).unwrap();
    core.add_updater(admin(), Address::new(0, 5)).unwrap();
    core.add_updater(admin(), Address::new(0, 4)).unwrap();
    assert_eq!(core.get_authorized_updaters(), vec![Address::new(0, 4), Address::new(0, 5)]);
}
