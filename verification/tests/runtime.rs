use ledger_runtime::balances;
use ledger_runtime::runtime::{hex_encode, Runtime, RuntimeCall, Transaction};
use ledger_runtime::staking;
use ledger_runtime::support::{Block, Dispatch, Extrinsic, Header};
use ledger_runtime::system::block_hash;
use ledger_runtime::types;

fn transfer(from: &str, to: &str, amount: u128) -> Transaction {
    Transaction::Transfer { from: from.to_string(), to: to.to_string(), amount }
}

fn set_balance(who: &str, amount: u128) -> Transaction {
    Transaction::SetBalance { who: who.to_string(), amount }
}

fn nonce(runtime: &Runtime, who: &str) -> u32 {
    runtime.system.nonce.get(&who.to_string()).copied().unwrap_or(0)
}

fn balance(runtime: &Runtime, who: &str) -> u128 {
    runtime.balances.balance(&who.to_string())
}

fn transfer_extrinsic(from: &str, to: &str, amount: u128) -> types::Extrinsic {
    Extrinsic {
        caller: from.to_string(),
        call: RuntimeCall::Balances(balances::Call::Transfer { to: to.to_string(), amount }),
    }
}

#[test]
fn new_runtime_settings() {
    let runtime = Runtime::new();
    assert_eq!(runtime.system.block_number(), 0);
    assert_eq!(runtime.balances.get_transaction_fee(), 0);
    assert_eq!(runtime.staking.minimum_stake, 100);
    assert_eq!(runtime.staking.reward_rate, 5);
    assert_eq!(runtime.staking.unstaking_period, 10);
    assert_eq!(runtime.staking.max_validators, 10);
    assert_eq!(runtime.staking.get_total_staked(), 0);
    assert!(runtime.verify_chain_integrity());
}

#[test]
fn hex_encoding() {
    assert_eq!(hex_encode(&[]), "");
    assert_eq!(hex_encode(&[0x00, 0xab, 0xff, 0x10, 0x09]), "00abff1009");
    let all: Vec<u8> = (0..=255).collect();
    let expected: String = all.iter().map(|b| format!("{:02x}", b)).collect();
    assert_eq!(hex_encode(&all), expected);
}

#[test]
fn block_of_transactions() {
    let mut runtime = Runtime::new();
    let result = runtime.create_block(vec![
        set_balance("cheryl", 10000),
        set_balance("Femi", 500),
        transfer("cheryl", "faith", 50),
        transfer("faith", "temi", 51),
        transfer("Femi", "temi", 100),
    ]);
    assert_eq!(result.block_number, 1);
    assert_eq!(result.transaction_count, 4);
    assert_eq!(result.successful_transactions.len(), 4);
    assert_eq!(result.failed_transactions.len(), 1);
    assert!(matches!(
        &result.failed_transactions[0],
        (Transaction::Transfer { from, to, amount: 51 }, reason)
            if from == "faith" && to == "temi" && reason == "InsufficientBalance"
    ));
    assert!(matches!(
        &result.successful_transactions[2],
        Transaction::Transfer { from, to, amount: 50 } if from == "cheryl" && to == "faith"
    ));
    assert_eq!(balance(&runtime, "cheryl"), 9950);
    assert_eq!(balance(&runtime, "faith"), 50);
    assert_eq!(balance(&runtime, "temi"), 100);
    assert_eq!(balance(&runtime, "Femi"), 400);
    assert_eq!(nonce(&runtime, "cheryl"), 1);
    assert_eq!(nonce(&runtime, "faith"), 1);
    assert_eq!(nonce(&runtime, "Femi"), 1);
    assert_eq!(nonce(&runtime, "temi"), 0);
    assert_eq!(result.block_hash, block_hash(1, 3, None));
    assert_eq!(runtime.system.get_block_hash(1), Some(result.block_hash));
    assert_eq!(runtime.system.current_block_hash(), Some(result.block_hash));
    assert_eq!(runtime.staking.current_block, 1);
    assert!(runtime.verify_chain_integrity());

    let second = runtime.create_block(vec![]);
    assert_eq!(second.block_number, 2);
    assert_eq!(second.transaction_count, 0);
    assert_eq!(second.block_hash, block_hash(2, 3, Some(result.block_hash)));
    assert_eq!(runtime.system.parent_block_hash(), Some(result.block_hash));
    assert!(runtime.verify_chain_integrity());
}

#[test]
fn chain_with_a_gap_is_not_whole() {
    let mut runtime = Runtime::new();
    runtime.create_block(vec![]);
    runtime.system.inc_block_number();
    assert!(!runtime.verify_chain_integrity());
    runtime.system.finalize_block();
    assert!(runtime.verify_chain_integrity());
}

#[test]
fn staking_transactions_move_the_balance() {
    let mut runtime = Runtime::new();
    let result = runtime.create_block(vec![
        set_balance("femi", 1000),
        Transaction::AddValidator { validator: "cheryl".to_string(), commission: 5 },
        Transaction::AddValidator { validator: "cheryl".to_string(), commission: 5 },
        Transaction::Stake { who: "femi".to_string(), amount: 200, validator: "cheryl".to_string() },
        Transaction::Stake { who: "temi".to_string(), amount: 150, validator: "cheryl".to_string() },
        Transaction::Unstake { who: "femi".to_string() },
        Transaction::ClaimRewards { who: "temi".to_string() },
    ]);
    assert_eq!(result.transaction_count, 3);
    let reasons: Vec<&str> = result.failed_transactions.iter().map(|f| f.1.as_str()).collect();
    assert_eq!(
        reasons,
        vec!["AlreadyValidator", "InsufficientBalance", "UnstakingPeriodNotMet", "NotStaked"]
    );
    assert_eq!(balance(&runtime, "femi"), 800);
    assert_eq!(runtime.staking.get_total_staked(), 200);
    assert_eq!(nonce(&runtime, "femi"), 2);
    assert_eq!(nonce(&runtime, "temi"), 2);
    assert_eq!(nonce(&runtime, "cheryl"), 0);

    for _ in 0..9 {
        runtime.create_block(vec![]);
    }
    assert_eq!(runtime.staking.get_stake_info(&"femi".to_string()).unwrap().total_rewards, 9);
    let result = runtime.create_block(vec![
        Transaction::ClaimRewards { who: "femi".to_string() },
        Transaction::Unstake { who: "femi".to_string() },
    ]);
    assert_eq!(result.block_number, 11);
    assert_eq!(result.transaction_count, 2);
    assert_eq!(balance(&runtime, "femi"), 1000);
    assert_eq!(runtime.staking.get_total_staked(), 0);
    assert!(!runtime.staking.is_staking(&"femi".to_string()));
}

#[test]
fn rewards_are_credited_on_claim() {
    let mut runtime = Runtime::new();
    runtime.staking.reward_rate = 1000;
    runtime.create_block(vec![
        set_balance("femi", 1000),
        Transaction::AddValidator { validator: "cheryl".to_string(), commission: 10 },
        Transaction::Stake { who: "femi".to_string(), amount: 200, validator: "cheryl".to_string() },
    ]);
    runtime.staking.current_block = 3;
    assert_eq!(
        runtime.execute_transaction(Transaction::ClaimRewards { who: "femi".to_string() }),
        Ok(())
    );
    assert_eq!(balance(&runtime, "femi"), 800 + 360);

    runtime.balances.set_balance(&"femi".to_string(), u128::MAX - 100);
    runtime.staking.current_block = 4;
    assert_eq!(
        runtime.execute_transaction(Transaction::ClaimRewards { who: "femi".to_string() }),
        Err("OverflowInTransfer".to_string())
    );
    assert_eq!(runtime.staking.get_stake_info(&"femi".to_string()).unwrap().last_reward_block, 3);
    runtime.staking.current_block = 20;
    runtime.staking.reward_rate = 0;
    assert_eq!(
        runtime.execute_transaction(Transaction::Unstake { who: "femi".to_string() }),
        Err("OverflowInTransfer".to_string())
    );
    assert!(runtime.staking.is_staking(&"femi".to_string()));
    runtime.balances.set_balance(&"femi".to_string(), u128::MAX - 200);
    assert_eq!(
        runtime.execute_transaction(Transaction::Unstake { who: "femi".to_string() }),
        Ok(())
    );
    assert_eq!(balance(&runtime, "femi"), u128::MAX);
    assert_eq!(nonce(&runtime, "femi"), 5);
}

#[test]
fn block_of_extrinsics() {
    let mut runtime = Runtime::new();
    runtime.balances.set_balance(&"cheryl".to_string(), 100);
    let block = Block {
        header: Header { block_number: 1 },
        extrinsics: vec![
            transfer_extrinsic("cheryl", "faith", 25),
            transfer_extrinsic("faith", "cheryl", 26),
            Extrinsic {
                caller: "nathaniel".to_string(),
                call: RuntimeCall::Staking(staking::Call::ClaimRewards),
            },
            transfer_extrinsic("cheryl", "faith", 75),
            transfer_extrinsic("cheryl", "faith", 1),
            Extrinsic {
                caller: "cheryl".to_string(),
                call: RuntimeCall::Staking(staking::Call::AddValidator {
                    validator: "v1".to_string(),
                    commission: 5,
                }),
            },
        ],
    };
    let outcomes = runtime.execute_block(block).unwrap();
    assert_eq!(
        outcomes,
        vec![
            Ok(()),
            Err("Transfer failed"),
            Err("Failed to claim rewards"),
            Ok(()),
            Err("Transfer failed"),
            Ok(()),
        ]
    );
    assert_eq!(balance(&runtime, "cheryl"), 0);
    assert_eq!(balance(&runtime, "faith"), 100);
    assert_eq!(nonce(&runtime, "cheryl"), 4);
    assert_eq!(nonce(&runtime, "faith"), 1);
    assert_eq!(nonce(&runtime, "nathaniel"), 1);
    assert_eq!(runtime.system.block_number(), 1);
    assert_eq!(runtime.system.current_block_hash(), Some(block_hash(1, 3, None)));
    assert_eq!(runtime.staking.current_block, 1);
    assert!(runtime.staking.is_validator(&"v1".to_string()));
}

#[test]
fn block_with_the_wrong_number_is_refused() {
    let mut runtime = Runtime::new();
    runtime.balances.set_balance(&"cheryl".to_string(), 100);
    let block = Block {
        header: Header { block_number: 2 },
        extrinsics: vec![transfer_extrinsic("cheryl", "faith", 25)],
    };
    assert_eq!(
        runtime.execute_block(block),
        Err("block number does not match what is expected")
    );
    assert_eq!(runtime.system.block_number(), 1);
    assert_eq!(balance(&runtime, "cheryl"), 100);
    assert_eq!(nonce(&runtime, "cheryl"), 0);
    assert_eq!(runtime.system.current_block_hash(), None);
}

#[test]
fn nonce_counts_failed_extrinsics_too() {
    let mut runtime = Runtime::new();
    runtime.balances.set_balance(&"alice".to_string(), 10);
    let mut extrinsics = Vec::new();
    for i in 0..20u128 {
        extrinsics.push(transfer_extrinsic("alice", "bob", i));
        if i % 4 == 0 {
            extrinsics.push(transfer_extrinsic("bob", "alice", 1000));
        }
    }
    let block = Block { header: Header { block_number: 1 }, extrinsics };
    let outcomes = runtime.execute_block(block).unwrap();
    assert_eq!(outcomes.len(), 25);
    assert_eq!(outcomes.iter().filter(|r| r.is_ok()).count(), 5);
    assert_eq!(nonce(&runtime, "alice"), 20);
    assert_eq!(nonce(&runtime, "bob"), 5);
    assert_eq!(balance(&runtime, "alice"), 0);
    assert_eq!(balance(&runtime, "bob"), 10);
}

#[test]
fn runtime_dispatch_routes_by_module() {
    let mut runtime = Runtime::new();
    runtime.balances.set_balance(&"alice".to_string(), 10);
    let call = RuntimeCall::Balances(balances::Call::Transfer { to: "bob".to_string(), amount: 4 });
    assert_eq!(runtime.dispatch("alice".to_string(), call), Ok(()));
    let call = RuntimeCall::Balances(balances::Call::Transfer { to: "bob".to_string(), amount: 40 });
    assert_eq!(runtime.dispatch("alice".to_string(), call), Err("Transfer failed"));
    let call = RuntimeCall::Staking(staking::Call::Unstake);
    assert_eq!(runtime.dispatch("alice".to_string(), call), Err("Failed to unstake"));
    let call = RuntimeCall::Staking(staking::Call::Stake { validator: "v".to_string(), amount: 1 });
    assert_eq!(
        runtime.dispatch("alice".to_string(), call),
        Err("Staking through dispatch not implemented yet")
    );
    assert_eq!(balance(&runtime, "bob"), 4);
    assert_eq!(nonce(&runtime, "alice"), 0);
}

#[test]
fn transaction_copies_say_the_same() {
    let first = Transaction::Stake {
        who: "femi".to_string(),
        amount: 200,
        validator: "cheryl".to_string(),
    };
    assert_eq!(format!("{:?}", first.duplicate()), format!("{:?}", first));
    assert_eq!(format!("{:?}", first.clone()), format!("{:?}", first));
}
