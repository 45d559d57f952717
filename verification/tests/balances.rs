use ledger_runtime::balances::{BalancesError, Call, Config, Pallet};
use ledger_runtime::support::Dispatch;

struct TestConfig;

impl ledger_runtime::system::Config for TestConfig {
    type AccountId = String;
    type BlockNumber = u32;
    type Nonce = u32;
}

impl Config for TestConfig {
    type Balance = u128;
}

fn sum(balances: &Pallet<TestConfig>, accounts: &[&str]) -> u128 {
    let mut total = 0;
    for account in accounts {
        total += balances.balance(&account.to_string());
    }
    total
}

#[test]
fn init_balances() {
    let mut balances = Pallet::<TestConfig>::new();

    assert_eq!(balances.balance(&"alice".to_string()), 0);
    balances.set_balance(&"alice".to_string(), 100);
    assert_eq!(balances.balance(&"alice".to_string()), 100);
    assert_eq!(balances.balance(&"bob".to_string()), 0);
}

#[test]
fn transfer_balance() {
    let mut balances = Pallet::<TestConfig>::new();

    assert_eq!(
        balances.transfer("alice".to_string(), "bob".to_string(), 51),
        Err(BalancesError::InsufficientBalance)
    );

    balances.set_balance(&"alice".to_string(), 100);
    assert_eq!(
        balances.transfer("alice".to_string(), "bob".to_string(), 51),
        Ok(())
    );

    assert_eq!(balances.balance(&"alice".to_string()), 49);
    assert_eq!(balances.balance(&"bob".to_string()), 51);
}

#[test]
fn transfer_with_fee_recipient() {
    let mut balances = Pallet::<TestConfig>::new_with_fee_config(5, Some("treasury".to_string()));

    balances.set_balance(&"alice".to_string(), 100);
    balances.set_balance(&"treasury".to_string(), 10);

    assert_eq!(
        balances.transfer("alice".to_string(), "bob".to_string(), 30),
        Ok(())
    );

    assert_eq!(balances.balance(&"alice".to_string()), 65);
    assert_eq!(balances.balance(&"bob".to_string()), 30);
    assert_eq!(balances.balance(&"treasury".to_string()), 15);
}

#[test]
fn failed_transfer_leaves_the_balance() {
    let mut balances = Pallet::<TestConfig>::new();
    assert_eq!(
        balances.transfer("alice".to_string(), "bob".to_string(), 51),
        Err(BalancesError::InsufficientBalance)
    );
    assert_eq!(balances.balance(&"alice".to_string()), 0);
    assert_eq!(balances.balance(&"bob".to_string()), 0);
}

#[test]
fn fee_settings_are_kept() {
    let mut balances = Pallet::<TestConfig>::new();
    assert_eq!(balances.get_transaction_fee(), 0);
    balances.set_transaction_fee(7);
    assert_eq!(balances.get_transaction_fee(), 7);
    assert_eq!(balances.get_transfer_cost(30), Ok(37));
    assert_eq!(
        balances.get_transfer_cost(u128::MAX - 6),
        Err(BalancesError::OverflowInCalculation)
    );
    assert_eq!(balances.get_transfer_cost(u128::MAX - 7), Ok(u128::MAX));
}

#[test]
fn fee_without_recipient_leaves_the_ledger() {
    let mut balances = Pallet::<TestConfig>::new_with_fee_config(5, None);
    balances.set_balance(&"alice".to_string(), 100);
    assert_eq!(balances.transfer("alice".to_string(), "bob".to_string(), 30), Ok(()));
    assert_eq!(balances.balance(&"alice".to_string()), 65);
    assert_eq!(balances.balance(&"bob".to_string()), 30);
    assert_eq!(sum(&balances, &["alice", "bob"]), 95);
}

#[test]
fn fee_recipient_can_be_set_later() {
    let mut balances = Pallet::<TestConfig>::new_with_fee_config(3, None);
    balances.set_fee_recipient(Some("treasury".to_string()));
    balances.set_balance(&"alice".to_string(), 50);
    assert_eq!(balances.transfer("alice".to_string(), "bob".to_string(), 10), Ok(()));
    assert_eq!(balances.balance(&"treasury".to_string()), 3);
    balances.set_fee_recipient(None);
    assert_eq!(balances.transfer("alice".to_string(), "bob".to_string(), 10), Ok(()));
    assert_eq!(balances.balance(&"treasury".to_string()), 3);
    assert_eq!(balances.balance(&"alice".to_string()), 24);
}

#[test]
fn transfers_conserve_the_total_with_a_recipient() {
    let accounts = ["alice", "bob", "carol", "treasury"];
    let mut balances = Pallet::<TestConfig>::new_with_fee_config(2, Some("treasury".to_string()));
    balances.set_balance(&"alice".to_string(), 1000);
    balances.set_balance(&"bob".to_string(), 40);
    let before = sum(&balances, &accounts);
    let moves = [
        ("alice", "bob", 100u128),
        ("bob", "carol", 139),
        ("carol", "alice", 500),
        ("alice", "treasury", 30),
        ("treasury", "carol", 1),
        ("bob", "bob", 1),
        ("alice", "alice", 10),
    ];
    let mut done = 0;
    for (from, to, amount) in moves {
        if balances.transfer(from.to_string(), to.to_string(), amount).is_ok() {
            done += 1;
        }
        assert_eq!(sum(&balances, &accounts), before);
    }
    assert_eq!(done, 5);
    assert_eq!(balances.balance(&"alice".to_string()), 1000 - 102 - 32 - 2);
}

#[test]
fn transfers_without_a_recipient_lose_the_fees() {
    let accounts = ["alice", "bob", "carol"];
    let mut balances = Pallet::<TestConfig>::new_with_fee_config(2, None);
    balances.set_balance(&"alice".to_string(), 1000);
    let mut expected = 1000;
    for (from, to, amount) in [("alice", "bob", 100u128), ("bob", "carol", 50), ("carol", "alice", 500)] {
        if balances.transfer(from.to_string(), to.to_string(), amount).is_ok() {
            expected -= 2;
        }
        assert_eq!(sum(&balances, &accounts), expected);
    }
    assert_eq!(expected, 996);
}

#[test]
fn transfer_to_oneself_pays_the_fee_only() {
    let mut balances = Pallet::<TestConfig>::new_with_fee_config(5, Some("treasury".to_string()));
    balances.set_balance(&"alice".to_string(), 100);
    assert_eq!(balances.transfer("alice".to_string(), "alice".to_string(), 30), Ok(()));
    assert_eq!(balances.balance(&"alice".to_string()), 95);
    assert_eq!(balances.balance(&"treasury".to_string()), 5);
    assert_eq!(
        balances.transfer("alice".to_string(), "alice".to_string(), 91),
        Err(BalancesError::InsufficientBalance)
    );
}

#[test]
fn exact_balance_can_be_spent() {
    let mut balances = Pallet::<TestConfig>::new_with_fee_config(5, Some("alice".to_string()));
    balances.set_balance(&"alice".to_string(), 35);
    assert_eq!(balances.transfer("alice".to_string(), "bob".to_string(), 30), Ok(()));
    assert_eq!(balances.balance(&"alice".to_string()), 5);
    assert_eq!(balances.balance(&"bob".to_string()), 30);
}

#[test]
fn overflow_errors() {
    let mut balances = Pallet::<TestConfig>::new_with_fee_config(5, Some("treasury".to_string()));
    balances.set_balance(&"alice".to_string(), 100);
    assert_eq!(
        balances.transfer("alice".to_string(), "bob".to_string(), u128::MAX - 4),
        Err(BalancesError::OverflowInCalculation)
    );
    balances.set_balance(&"bob".to_string(), u128::MAX - 10);
    assert_eq!(
        balances.transfer("alice".to_string(), "bob".to_string(), 11),
        Err(BalancesError::OverflowInTransfer)
    );
    balances.set_balance(&"bob".to_string(), 0);
    balances.set_balance(&"treasury".to_string(), u128::MAX - 4);
    assert_eq!(
        balances.transfer("alice".to_string(), "bob".to_string(), 11),
        Err(BalancesError::OverflowInCalculation)
    );
    assert_eq!(balances.balance(&"alice".to_string()), 100);
    assert_eq!(balances.balance(&"bob".to_string()), 0);
    assert_eq!(balances.balance(&"treasury".to_string()), u128::MAX - 4);

    balances.set_balance(&"treasury".to_string(), u128::MAX - 20);
    assert_eq!(
        balances.transfer("alice".to_string(), "treasury".to_string(), 16),
        Err(BalancesError::OverflowInCalculation)
    );
    assert_eq!(balances.transfer("alice".to_string(), "treasury".to_string(), 15), Ok(()));
    assert_eq!(balances.balance(&"treasury".to_string()), u128::MAX);
    assert_eq!(balances.balance(&"alice".to_string()), 80);
}

#[test]
fn dispatch_transfers_and_hides_the_error() {
    let mut balances = Pallet::<TestConfig>::new();
    balances.set_balance(&"alice".to_string(), 100);
    let call = Call::Transfer { to: "bob".to_string(), amount: 60 };
    assert_eq!(balances.dispatch("alice".to_string(), call), Ok(()));
    assert_eq!(balances.balance(&"bob".to_string()), 60);
    let call = Call::Transfer { to: "bob".to_string(), amount: 60 };
    assert_eq!(balances.dispatch("alice".to_string(), call), Err("Transfer failed"));
    assert_eq!(balances.balance(&"alice".to_string()), 40);
    assert_eq!(balances.balance(&"bob".to_string()), 60);
}

#[test]
fn error_texts() {
    let all = [
        (BalancesError::InsufficientBalance, "InsufficientBalance", "Insufficient balance"),
        (BalancesError::InsufficientFunds, "InsufficientFunds", "Insufficient funds to pay fees"),
        (
            BalancesError::OverflowInCalculation,
            "OverflowInCalculation",
            "Overflow in clculating transfer costs",
        ),
        (BalancesError::OverflowInTransfer, "OverflowInTransfer", "Overflow in transfer calculation"),
        (BalancesError::InvalidAmount, "InvalidAmount", "Invalid amount specified"),
    ];
    for (error, name, message) in all {
        assert_eq!(error.name(), name);
        assert_eq!(error.message(), message);
        assert_eq!(format!("{:?}", error), name);
    }
}

struct NumericConfig;

impl ledger_runtime::system::Config for NumericConfig {
    type AccountId = u64;
    type BlockNumber = u64;
    type Nonce = u64;
}

impl Config for NumericConfig {
    type Balance = u64;
}

#[test]
fn ledger_over_other_types() {
    let mut balances = Pallet::<NumericConfig>::new_with_fee_config(1, Some(7));
    balances.set_balance(&1, 100);
    assert_eq!(balances.transfer(1, 2, 40), Ok(()));
    assert_eq!(balances.balance(&1), 59);
    assert_eq!(balances.balance(&2), 40);
    assert_eq!(balances.balance(&7), 1);
    balances.set_balance(&2, u64::MAX - 3);
    assert_eq!(balances.transfer(1, 2, 4), Err(BalancesError::OverflowInTransfer));
    assert_eq!(balances.transfer(1, 2, 3), Ok(()));
    assert_eq!(balances.balance(&2), u64::MAX);
    assert_eq!(balances.get_transfer_cost(u64::MAX), Err(BalancesError::OverflowInCalculation));
}
