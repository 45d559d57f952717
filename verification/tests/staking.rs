use ledger_runtime::staking::{
    reward, Call, Config, Pallet, Result, StakingError, StakingEvent,
};
use ledger_runtime::support::Dispatch;

struct TestConfig;

impl ledger_runtime::system::Config for TestConfig {
    type AccountId = String;
    type BlockNumber = u32;
    type Nonce = u32;
}

impl Config for TestConfig {
    type Balance = u128;
}

fn mock_balance_check(balance: u128) -> impl Fn(&String) -> u128 {
    move |_| balance
}

fn staked_with(staking: &Pallet<TestConfig>, accounts: &[&str], validator: &str) -> (u128, u32) {
    let mut total = 0;
    let mut count = 0;
    for account in accounts {
        if let Some(info) = staking.get_stake_info(&account.to_string()) {
            if info.validator == validator {
                total += info.staked_amount;
                count += 1;
            }
        }
    }
    (total, count)
}

#[test]
fn test_validator_management() {
    let mut staking = Pallet::<TestConfig>::new();

    assert_eq!(
        staking.add_validator("alice".to_string(), 10),
        Result::Done(())
    );
    assert!(staking.is_validator(&"alice".to_string()));

    assert_eq!(
        staking.add_validator("alice".to_string(), 10),
        Result::Failed(StakingError::AlreadyValidator)
    );

    assert_eq!(
        staking.add_validator("bob".to_string(), 150),
        Result::Failed(StakingError::InvalidValidator)
    );

    assert_eq!(
        staking.remove_validator(&"alice".to_string()),
        Result::Done(())
    );
    assert!(!staking.is_validator(&"alice".to_string()));
}

#[test]
fn test_staking() {
    let mut staking = Pallet::<TestConfig>::new_with_config(100, 5, 10, 10);

    staking.add_validator("validator1".to_string(), 5).unwrap();

    let balance_check = mock_balance_check(1000);
    assert_eq!(
        staking.stake(
            "user1".to_string(),
            200,
            "validator1".to_string(),
            balance_check
        ),
        Ok(())
    );

    assert!(staking.is_staking(&"user1".to_string()));
    assert_eq!(staking.get_total_staked(), 200);

    let balance_check = mock_balance_check(1000);
    assert_eq!(
        staking.stake(
            "user1".to_string(),
            100,
            "validator1".to_string(),
            balance_check
        ),
        Err(StakingError::AlreadyStaked)
    );
}

#[test]
fn custom_result_methods() {
    let done: Result<u32, StakingError> = Result::Done(7);
    let failed: Result<u32, StakingError> = Result::Failed(StakingError::NotStaked);
    assert!(done.is_ok());
    assert!(!done.is_err());
    assert!(!failed.is_ok());
    assert!(failed.is_err());
    assert_eq!(failed.unwrap_or(3), 3);
    let done: Result<u32, StakingError> = Result::Done(7);
    assert_eq!(done.unwrap_or(3), 7);
    let done: Result<u32, StakingError> = Result::Done(7);
    assert_eq!(done.unwrap(), 7);
}

#[test]
fn stake_then_unstake_after_the_lock() {
    let mut staking = Pallet::<TestConfig>::new_with_config(100, 5, 10, 10);
    assert_eq!(staking.add_validator("v1".to_string(), 5), Result::Done(()));
    assert_eq!(
        staking.stake("u1".to_string(), 200, "v1".to_string(), mock_balance_check(1000)),
        Ok(())
    );
    assert_eq!(staking.get_total_staked(), 200);
    assert_eq!(
        staking.unstake("u1".to_string()),
        Err(StakingError::UnstakingPeriodNotMet)
    );
    assert!(staking.is_staking(&"u1".to_string()));
    assert_eq!(staking.get_total_staked(), 200);

    let current = staking.current_block;
    staking.on_block(current + 9);
    assert_eq!(
        staking.unstake("u1".to_string()),
        Err(StakingError::UnstakingPeriodNotMet)
    );
    staking.on_block(current + 10);
    assert_eq!(staking.unstake("u1".to_string()), Ok(200));
    assert_eq!(staking.get_total_staked(), 0);
    assert!(!staking.is_staking(&"u1".to_string()));
    let info = staking.get_validator_info(&"v1".to_string()).unwrap();
    assert_eq!(info.total_stake, 0);
    assert_eq!(info.nominators_count, 0);
}

#[test]
fn validator_registration_errors() {
    let mut staking = Pallet::<TestConfig>::new();
    assert_eq!(staking.add_validator("v1".to_string(), 5), Result::Done(()));
    assert_eq!(
        staking.add_validator("v1".to_string(), 5),
        Result::Failed(StakingError::AlreadyValidator)
    );
    assert_eq!(
        staking.add_validator("v2".to_string(), 150),
        Result::Failed(StakingError::InvalidValidator)
    );
    assert_eq!(
        staking.add_validator("v2".to_string(), 101),
        Result::Failed(StakingError::InvalidValidator)
    );
    assert_eq!(staking.add_validator("v2".to_string(), 100), Result::Done(()));
    assert_eq!(
        staking.remove_validator(&"nobody".to_string()),
        Result::Failed(StakingError::NotValidator)
    );
    let info = staking.get_validator_info(&"v1".to_string()).unwrap();
    assert_eq!(info.commission_rate, 5);
    assert!(info.is_active);
    assert_eq!(info.total_stake, 0);
    assert_eq!(info.nominators_count, 0);
    assert_eq!(info.blocks_produced, 0);
}

#[test]
fn registry_takes_no_more_than_its_capacity() {
    let mut staking = Pallet::<TestConfig>::new_with_config(0, 0, 0, 2);
    assert_eq!(staking.add_validator("a".to_string(), 1), Result::Done(()));
    assert_eq!(staking.add_validator("b".to_string(), 1), Result::Done(()));
    assert_eq!(
        staking.add_validator("c".to_string(), 1),
        Result::Failed(StakingError::TooManyValidators)
    );
    assert_eq!(
        staking.add_validator("c".to_string(), 200),
        Result::Failed(StakingError::TooManyValidators)
    );
    assert_eq!(
        staking.add_validator("a".to_string(), 200),
        Result::Failed(StakingError::AlreadyValidator)
    );
    assert_eq!(staking.remove_validator(&"a".to_string()), Result::Done(()));
    assert_eq!(staking.add_validator("c".to_string(), 1), Result::Done(()));
}

#[test]
fn stake_errors_in_order() {
    let mut staking = Pallet::<TestConfig>::new_with_config(100, 5, 10, 10);
    staking.add_validator("v1".to_string(), 5).unwrap();
    assert_eq!(
        staking.stake("u1".to_string(), 99, "v1".to_string(), mock_balance_check(1000)),
        Err(StakingError::MinimumStakeNotMet)
    );
    assert_eq!(
        staking.stake("u1".to_string(), 100, "nobody".to_string(), mock_balance_check(1000)),
        Err(StakingError::InvalidValidator)
    );
    assert_eq!(
        staking.stake("u1".to_string(), 100, "v1".to_string(), mock_balance_check(99)),
        Err(StakingError::InsufficientBalance)
    );
    assert_eq!(
        staking.stake_with_balance("u1".to_string(), 100, "v1".to_string(), 99),
        Err(StakingError::InsufficientBalance)
    );
    assert!(!staking.is_staking(&"u1".to_string()));
    assert_eq!(staking.get_events().len(), 1);

    staking.validators.insert(
        "idle".to_string(),
        ledger_runtime::staking::ValidatorInfo {
            total_stake: 0,
            commission_rate: 0,
            is_active: false,
            nominators_count: 0,
            blocks_produced: 0,
        },
    );
    assert_eq!(
        staking.stake("u1".to_string(), 100, "idle".to_string(), mock_balance_check(1000)),
        Err(StakingError::InvalidValidator)
    );
    assert_eq!(
        staking.stake("u1".to_string(), 100, "v1".to_string(), mock_balance_check(100)),
        Ok(())
    );
    assert_eq!(
        staking.stake("u1".to_string(), 1, "nobody".to_string(), mock_balance_check(0)),
        Err(StakingError::AlreadyStaked)
    );
}

#[test]
fn stake_that_overflows_a_total_is_refused() {
    let mut staking = Pallet::<TestConfig>::new_with_config(0, 0, 0, 10);
    staking.add_validator("v1".to_string(), 5).unwrap();
    staking.add_validator("v2".to_string(), 5).unwrap();
    assert_eq!(
        staking.stake_with_balance("u1".to_string(), u128::MAX - 5, "v1".to_string(), u128::MAX),
        Ok(())
    );
    assert_eq!(
        staking.stake_with_balance("u2".to_string(), 6, "v1".to_string(), 10),
        Err(StakingError::RewardCalculationError)
    );
    assert_eq!(
        staking.stake_with_balance("u2".to_string(), 6, "v2".to_string(), 10),
        Err(StakingError::RewardCalculationError)
    );
    assert!(!staking.is_staking(&"u2".to_string()));
    assert_eq!(staking.get_validator_info(&"v2".to_string()).unwrap().total_stake, 0);
    assert_eq!(staking.get_validator_info(&"v2".to_string()).unwrap().nominators_count, 0);
    assert_eq!(staking.get_total_staked(), u128::MAX - 5);
    assert_eq!(
        staking.stake_with_balance("u2".to_string(), 5, "v2".to_string(), 10),
        Ok(())
    );
    assert_eq!(staking.get_total_staked(), u128::MAX);
}

#[test]
fn unstake_errors() {
    let mut staking = Pallet::<TestConfig>::new_with_config(0, 0, 0, 10);
    assert_eq!(staking.unstake("u1".to_string()), Err(StakingError::NotStaked));
    staking.add_validator("v1".to_string(), 5).unwrap();
    staking.stake_with_balance("u1".to_string(), 50, "v1".to_string(), 50).unwrap();
    staking.total_staked = 49;
    assert_eq!(
        staking.unstake("u1".to_string()),
        Err(StakingError::RewardCalculationError)
    );
    staking.total_staked = 50;
    assert_eq!(staking.remove_validator(&"v1".to_string()), Result::Done(()));
    assert_eq!(staking.add_validator("v1".to_string(), 5), Result::Done(()));
    assert_eq!(
        staking.unstake("u1".to_string()),
        Err(StakingError::RewardCalculationError)
    );
    assert!(staking.is_staking(&"u1".to_string()));
    assert_eq!(staking.remove_validator(&"v1".to_string()), Result::Done(()));
    assert_eq!(staking.unstake("u1".to_string()), Ok(50));
    assert_eq!(staking.get_total_staked(), 0);
}

#[test]
fn totals_follow_the_stakes() {
    let accounts = ["a", "b", "c", "d", "e"];
    let mut staking = Pallet::<TestConfig>::new_with_config(10, 5, 0, 10);
    staking.add_validator("v1".to_string(), 5).unwrap();
    staking.add_validator("v2".to_string(), 50).unwrap();
    let steps: [(&str, Option<(u128, &str)>); 9] = [
        ("a", Some((100, "v1"))),
        ("b", Some((20, "v2"))),
        ("c", Some((5, "v1"))),
        ("a", Some((7, "v2"))),
        ("c", Some((300, "v1"))),
        ("a", None),
        ("d", None),
        ("d", Some((11, "v2"))),
        ("b", None),
    ];
    for (who, step) in steps {
        match step {
            Some((amount, validator)) => {
                let _ = staking.stake(
                    who.to_string(),
                    amount,
                    validator.to_string(),
                    mock_balance_check(1000),
                );
            }
            None => {
                let _ = staking.unstake(who.to_string());
            }
        }
        let mut all = 0;
        for validator in ["v1", "v2"] {
            let (total, count) = staked_with(&staking, &accounts, validator);
            let info = staking.get_validator_info(&validator.to_string()).unwrap();
            assert_eq!(info.total_stake, total);
            assert_eq!(info.nominators_count, count);
            all += total;
        }
        assert_eq!(staking.get_total_staked(), all);
    }
    assert_eq!(staking.get_total_staked(), 311);
    assert!(staking.is_staking(&"c".to_string()));
    assert!(staking.is_staking(&"d".to_string()));
    assert!(!staking.is_staking(&"a".to_string()));
}

#[test]
fn reward_formula() {
    assert_eq!(reward(200, 5, 10, 5), Some(10));
    assert_eq!(reward(100_000, 5, 3, 10), Some(1350));
    assert_eq!(reward(100_000, 5, 3, 0), Some(1500));
    assert_eq!(reward(100_000, 5, 3, 100), Some(0));
    assert_eq!(reward(100_000, 5, 3, 200), Some(0));
    assert_eq!(reward(999, 1, 1, 0), Some(0));
    assert_eq!(reward(1000, 1, 1, 50), Some(1));
    assert_eq!(reward(3000, 1, 1, 50), Some(2));
    assert_eq!(reward(0, u128::MAX, u128::MAX, 0), Some(0));
    assert_eq!(reward(u128::MAX, 1, 1, 0), Some(u128::MAX / 1000));
    assert_eq!(reward(u128::MAX, 2, 1, 0), None);
    assert_eq!(reward(u128::MAX / 2, 2, 2, 0), None);
    assert_eq!(reward(u128::MAX, 1, 1, 255), Some(0));
}

#[test]
fn rewards_accrue_by_block() {
    let mut staking = Pallet::<TestConfig>::new_with_config(100, 5, 10, 10);
    staking.add_validator("v1".to_string(), 10).unwrap();
    staking.stake_with_balance("u1".to_string(), 100_000, "v1".to_string(), 100_000).unwrap();
    assert_eq!(staking.calculate_rewards(&"u1".to_string()), Ok(0));
    staking.current_block = 3;
    assert_eq!(staking.calculate_rewards(&"u1".to_string()), Ok(1350));
    assert_eq!(staking.claim_rewards("u1".to_string()), Ok(1350));
    let info = staking.get_stake_info(&"u1".to_string()).unwrap();
    assert_eq!(info.last_reward_block, 3);
    assert_eq!(info.total_rewards, 1350);
    assert_eq!(info.stake_block, 0);
    assert_eq!(info.staked_amount, 100_000);
    assert_eq!(staking.calculate_rewards(&"u1".to_string()), Ok(0));
    assert_eq!(staking.claim_rewards("u1".to_string()), Ok(0));
    staking.current_block = 4;
    assert_eq!(staking.claim_rewards("u1".to_string()), Ok(450));
    assert_eq!(staking.get_stake_info(&"u1".to_string()).unwrap().total_rewards, 1800);
    staking.current_block = 2;
    assert_eq!(staking.calculate_rewards(&"u1".to_string()), Ok(0));
}

#[test]
fn reward_errors() {
    let mut staking = Pallet::<TestConfig>::new_with_config(0, u128::MAX, 0, 10);
    assert_eq!(
        staking.calculate_rewards(&"u1".to_string()),
        Err(StakingError::NotStaked)
    );
    assert_eq!(
        staking.claim_rewards("u1".to_string()),
        Err(StakingError::NotStaked)
    );
    staking.add_validator("v1".to_string(), 10).unwrap();
    staking.stake_with_balance("u1".to_string(), 2, "v1".to_string(), 2).unwrap();
    staking.current_block = 1;
    assert_eq!(
        staking.calculate_rewards(&"u1".to_string()),
        Err(StakingError::RewardCalculationError)
    );
    assert_eq!(
        staking.claim_rewards("u1".to_string()),
        Err(StakingError::RewardCalculationError)
    );
    staking.reward_rate = 1000;
    staking.stakes.insert(
        "u2".to_string(),
        ledger_runtime::staking::StakeInfo {
            staked_amount: 1000,
            validator: "v1".to_string(),
            stake_block: 0,
            last_reward_block: 0,
            total_rewards: u128::MAX - 899,
        },
    );
    assert_eq!(staking.calculate_rewards(&"u2".to_string()), Ok(900));
    assert_eq!(
        staking.claim_rewards("u2".to_string()),
        Err(StakingError::RewardCalculationError)
    );
    assert_eq!(staking.get_stake_info(&"u2".to_string()).unwrap().last_reward_block, 0);
    staking.remove_validator(&"v1".to_string()).unwrap();
    assert_eq!(
        staking.calculate_rewards(&"u1".to_string()),
        Err(StakingError::InvalidValidator)
    );
    assert_eq!(
        staking.claim_rewards("u1".to_string()),
        Err(StakingError::InvalidValidator)
    );
}

#[test]
fn on_block_pays_every_stake_in_order_and_passes_over_failures() {
    let mut staking = Pallet::<TestConfig>::new_with_config(0, 10, 0, 10);
    staking.add_validator("v1".to_string(), 0).unwrap();
    staking.add_validator("v2".to_string(), 50).unwrap();
    staking.stake_with_balance("zed".to_string(), 1000, "v1".to_string(), 1000).unwrap();
    staking.stake_with_balance("amy".to_string(), 2000, "v2".to_string(), 2000).unwrap();
    staking.stake_with_balance("bob".to_string(), 3000, "v1".to_string(), 3000).unwrap();
    staking.remove_validator(&"v2".to_string()).unwrap();
    staking.clear_events();
    assert_eq!(staking.get_events().len(), 0);

    staking.on_block(2);
    assert_eq!(staking.current_block, 2);
    assert_eq!(staking.get_stake_info(&"zed".to_string()).unwrap().total_rewards, 20);
    assert_eq!(staking.get_stake_info(&"zed".to_string()).unwrap().last_reward_block, 2);
    assert_eq!(staking.get_stake_info(&"bob".to_string()).unwrap().total_rewards, 60);
    assert_eq!(staking.get_stake_info(&"amy".to_string()).unwrap().total_rewards, 0);
    assert_eq!(staking.get_stake_info(&"amy".to_string()).unwrap().last_reward_block, 0);
    let events = staking.get_events();
    assert_eq!(events.len(), 2);
    match &events[0] {
        StakingEvent::RewardsPaid { who, amount } => {
            assert_eq!(who, "bob");
            assert_eq!(*amount, 60);
        }
        _ => panic!("the first payment goes to bob"),
    }
    match &events[1] {
        StakingEvent::RewardsPaid { who, amount } => {
            assert_eq!(who, "zed");
            assert_eq!(*amount, 20);
        }
        _ => panic!("the second payment goes to zed"),
    }
    assert_eq!(staking.get_total_staked(), 6000);
}

#[test]
fn events_are_logged_in_order() {
    let mut staking = Pallet::<TestConfig>::new_with_config(0, 1000, 0, 10);
    staking.add_validator("v1".to_string(), 0).unwrap();
    staking.stake("u1".to_string(), 5, "v1".to_string(), mock_balance_check(5)).unwrap();
    staking.current_block = 1;
    staking.claim_rewards("u1".to_string()).unwrap();
    staking.unstake("u1".to_string()).unwrap();
    staking.remove_validator(&"v1".to_string()).unwrap();
    let events = staking.get_events();
    assert_eq!(events.len(), 5);
    assert!(matches!(&events[0], StakingEvent::ValidatorAdded { validator } if validator == "v1"));
    assert!(matches!(
        &events[1],
        StakingEvent::Staked { who, amount: 5, validator } if who == "u1" && validator == "v1"
    ));
    assert!(matches!(&events[2], StakingEvent::RewardsPaid { who, amount: 5 } if who == "u1"));
    assert!(matches!(&events[3], StakingEvent::Unstaked { who, amount: 5 } if who == "u1"));
    assert!(matches!(&events[4], StakingEvent::ValidatorRemoved { validator } if validator == "v1"));
    staking.clear_events();
    assert!(staking.get_events().is_empty());
}

#[test]
fn stats_are_computed_from_the_state() {
    let mut staking = Pallet::<TestConfig>::new_with_config(0, 0, 0, 10);
    let stats = staking.get_staking_stats();
    assert_eq!(stats.total_staked, 0);
    assert_eq!(stats.total_validators, 0);
    assert_eq!(stats.active_validators, 0);
    assert_eq!(stats.total_stakers, 0);
    assert_eq!(stats.average_stake, 0);

    staking.add_validator("v2".to_string(), 0).unwrap();
    staking.add_validator("v1".to_string(), 0).unwrap();
    staking.add_validator("v3".to_string(), 0).unwrap();
    staking.stake_with_balance("a".to_string(), 10, "v1".to_string(), 10).unwrap();
    staking.stake_with_balance("b".to_string(), 25, "v2".to_string(), 25).unwrap();
    staking.stake_with_balance("c".to_string(), 5, "v2".to_string(), 5).unwrap();
    let mut idle = ledger_runtime::staking::ValidatorInfo {
        total_stake: 30,
        commission_rate: 0,
        is_active: false,
        nominators_count: 2,
        blocks_produced: 0,
    };
    idle.blocks_produced = 1;
    staking.validators.insert("v2".to_string(), idle);

    let stats = staking.get_staking_stats();
    assert_eq!(stats.total_staked, 40);
    assert_eq!(stats.total_validators, 3);
    assert_eq!(stats.active_validators, 2);
    assert_eq!(stats.total_stakers, 3);
    assert_eq!(stats.average_stake, 13);

    let active = staking.get_active_validators();
    assert_eq!(active.len(), 2);
    assert_eq!(active[0].0, "v1");
    assert_eq!(active[0].1.total_stake, 10);
    assert_eq!(active[1].0, "v3");
}

#[test]
fn dispatch_routes_calls_and_hides_the_error() {
    let mut staking = Pallet::<TestConfig>::new_with_config(0, 1000, 5, 10);
    let add = Call::AddValidator { validator: "v1".to_string(), commission: 5 };
    assert_eq!(staking.dispatch("root".to_string(), add), Ok(()));
    let add = Call::AddValidator { validator: "v1".to_string(), commission: 5 };
    assert_eq!(staking.dispatch("root".to_string(), add), Err("Failed to add validator"));
    let stake = Call::Stake { validator: "v1".to_string(), amount: 10 };
    assert_eq!(
        staking.dispatch("u1".to_string(), stake),
        Err("Staking through dispatch not implemented yet")
    );
    assert!(!staking.is_staking(&"u1".to_string()));
    assert_eq!(staking.dispatch("u1".to_string(), Call::Unstake), Err("Failed to unstake"));
    assert_eq!(
        staking.dispatch("u1".to_string(), Call::ClaimRewards),
        Err("Failed to claim rewards")
    );
    staking.stake_with_balance("u1".to_string(), 10, "v1".to_string(), 10).unwrap();
    assert_eq!(staking.dispatch("u1".to_string(), Call::Unstake), Err("Failed to unstake"));
    staking.current_block = 5;
    assert_eq!(staking.dispatch("u1".to_string(), Call::ClaimRewards), Ok(()));
    assert_eq!(staking.get_stake_info(&"u1".to_string()).unwrap().total_rewards, 48);
    assert_eq!(staking.dispatch("u1".to_string(), Call::Unstake), Ok(()));
    assert!(!staking.is_staking(&"u1".to_string()));
}

#[test]
fn staking_error_texts() {
    let all = [
        (StakingError::InsufficientBalance, "InsufficientBalance", "Insufficient balance to stake"),
        (StakingError::NotStaked, "NotStaked", "Account is not staking"),
        (StakingError::AlreadyStaked, "AlreadyStaked", "Account is already staking"),
        (StakingError::MinimumStakeNotMet, "MinimumStakeNotMet", "Minimum stake amount not met"),
        (StakingError::InvalidValidator, "InvalidValidator", "Invalid validator"),
        (StakingError::TooManyValidators, "TooManyValidators", "Too many validators"),
        (StakingError::NotValidator, "NotValidator", "Account is not a validator"),
        (StakingError::AlreadyValidator, "AlreadyValidator", "Account is already a validator"),
        (
            StakingError::RewardCalculationError,
            "RewardCalculationError",
            "Error calculating rewards",
        ),
        (StakingError::UnstakingPeriodNotMet, "UnstakingPeriodNotMet", "Unstaking period not met"),
    ];
    for (error, name, message) in all {
        assert_eq!(error.name(), name);
        assert_eq!(error.message(), message);
        assert_eq!(format!("{:?}", error), name);
    }
}
