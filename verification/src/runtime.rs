//! The runtime: the three modules behind one object, the calls it routes to
//! them, and the execution of blocks.

use crate::balances;
use crate::staking;
use crate::support::{Dispatch, DispatchResult};
use crate::system;
use crate::types;
use vstd::prelude::*;

verus! {

/// The configuration that all modules of the runtime share.
#[derive(Debug)]
pub struct RuntimeConfig;

impl system::Config for RuntimeConfig {
    type AccountId = types::AccountId;

    type BlockNumber = types::BlockNumber;

    type Nonce = types::Nonce;
}

impl balances::Config for RuntimeConfig {
    type Balance = types::Balance;
}

impl staking::Config for RuntimeConfig {
    type Balance = types::Balance;
}

/// A call to one of the modules of the runtime.
pub enum RuntimeCall {
    /// A call to the balances module.
    Balances(balances::Call<RuntimeConfig>),
    /// A call to the staking module.
    Staking(staking::Call<RuntimeConfig>),
}

/// The runtime: one instance of each module.
#[derive(Debug)]
pub struct Runtime {
    /// Block number, nonces and block hashes.
    pub system: system::Pallet<RuntimeConfig>,
    /// The ledger.
    pub balances: balances::Pallet<RuntimeConfig>,
    /// Validators and stakes.
    pub staking: staking::Pallet<RuntimeConfig>,
}

/// How many of `extrinsics` were submitted by `who`.
pub open spec fn submitted(extrinsics: Seq<types::Extrinsic>, who: Seq<char>) -> nat
    decreases extrinsics.len(),
{
    if extrinsics.len() == 0 {
        0
    } else {
        submitted(extrinsics.drop_last(), who) + (if extrinsics.last().caller@ == who {
            1nat
        } else {
            0nat
        })
    }
}

/// Whether `trace` holds the states that the runtime passes through as it
/// executes `extrinsics` in order, with `outcomes` as their results.
pub open spec fn runs(
    trace: Seq<Runtime>,
    extrinsics: Seq<types::Extrinsic>,
    outcomes: Seq<DispatchResult>,
) -> bool {
    &&& trace.len() == extrinsics.len() + 1
    &&& outcomes.len() == extrinsics.len()
    &&& forall|i: int|
        0 <= i < extrinsics.len() ==> trace[i].extrinsic_applied(
            &trace[i + 1],
            extrinsics[i],
            #[trigger] outcomes[i],
        )
}

impl Runtime {
    /// How a dispatched call changes the runtime and ends: as the module
    /// that owns the call says; the other modules stay.
    pub open spec fn dispatched(
        &self,
        post: &Self,
        caller: String,
        call: RuntimeCall,
        r: DispatchResult,
    ) -> bool {
        match call {
            RuntimeCall::Balances(c) => {
                &&& post.system == self.system
                &&& post.staking == self.staking
                &&& self.balances.applied(&post.balances, caller, c, r)
            },
            RuntimeCall::Staking(c) => {
                &&& post.system == self.system
                &&& post.balances == self.balances
                &&& self.staking.applied(&post.staking, caller, c, r)
            },
        }
    }

    /// How an extrinsic changes the runtime and ends: the caller's nonce is
    /// counted, whatever becomes of the call, and the call is dispatched.
    pub open spec fn extrinsic_applied(
        &self,
        post: &Self,
        extrinsic: types::Extrinsic,
        r: DispatchResult,
    ) -> bool {
        &&& self.system.counted(&post.system, extrinsic.caller@)
        &&& (Runtime { system: post.system, ..*self }).dispatched(
            post,
            extrinsic.caller,
            extrinsic.call,
            r,
        )
    }

    /// How the end of a block changes the runtime: the hash of the block
    /// goes on record, and the staking module is told of the block and pays
    /// the rewards earned up to it.
    pub open spec fn sealed(&self, post: &Self) -> bool {
        &&& post.balances == self.balances
        &&& exists|hash: [u8; 32]| #[trigger] self.system.finalized(&post.system, hash)
        &&& self.staking.at_block(self.system.block_number).distributed(&post.staking)
    }

    /// A runtime at block zero with an empty ledger, and a staking module
    /// with a minimum stake of 100, a reward rate of 5, stakes locked for 10
    /// blocks and room for 10 validators.
    pub fn new() -> (r: Self)
        ensures
            r.system.block_number == 0,
            r.system.nonce@ == Map::<Seq<char>, u32>::empty(),
            r.system.block_hashes@ == Map::<u32, [u8; 32]>::empty(),
            r.balances.ledger() == Map::<Seq<char>, u128>::empty(),
            r.balances.fee() == 0,
            r.balances.recipient() is None,
            r.staking.stakes@ == Map::<Seq<char>, staking::StakeInfo<RuntimeConfig>>::empty(),
            r.staking.validators@ == Map::<
                Seq<char>,
                staking::ValidatorInfo<RuntimeConfig>,
            >::empty(),
            r.staking.minimum_stake == 100,
            r.staking.reward_rate == 5,
            r.staking.unstaking_period == 10,
            r.staking.max_validators == 10,
            r.staking.total_staked == 0,
            r.staking.current_block == 0,
            r.staking.totals_consistent(),
    {
        Runtime {
            system: system::Pallet::new(),
            balances: balances::Pallet::new(),
            staking: staking::Pallet::new_with_config(100, 5, 10, 10),
        }
    }
}

impl Runtime {
    /// How the start of a block changes the runtime: the block number
    /// advances.
    pub open spec fn begun(&self, post: &Self) -> bool {
        &&& self.system.advanced(&post.system)
        &&& post.balances == self.balances
        &&& post.staking == self.staking
    }

    /// The nonce of `who` after `n` more extrinsics from it: nonces stop at
    /// the largest.
    pub open spec fn nonce_after(&self, who: Seq<char>, n: nat) -> nat {
        if self.system.nonce_of(who) + n <= u32::MAX {
            self.system.nonce_of(who) + n
        } else {
            u32::MAX as nat
        }
    }

    /// Whether `trace` leads from the start of `block`, which claims the
    /// number that the runtime has advanced to, through its extrinsics to
    /// the state that is sealed into `post`.
    pub open spec fn passes_through(
        &self,
        post: &Self,
        block: types::Block,
        outcomes: Seq<DispatchResult>,
        trace: Seq<Runtime>,
    ) -> bool {
        &&& runs(trace, block.extrinsics@, outcomes)
        &&& self.begun(&trace[0])
        &&& trace[0].system.block_number == block.header.block_number
        &&& trace.last().sealed(post)
    }

    /// How executing a block changes the runtime and ends. Where the block
    /// does not claim the number that the runtime has advanced to, nothing
    /// more is done. Else `trace` leads from the start of the block through
    /// its extrinsics to the state that is then sealed, and each account's
    /// nonce has grown by the number of extrinsics it submitted, whatever
    /// became of them.
    pub open spec fn block_executed(
        &self,
        post: &Self,
        block: types::Block,
        r: Result<Vec<DispatchResult>, &'static str>,
    ) -> bool {
        match r {
            Err(m) => {
                &&& m@ == "block number does not match what is expected"@
                &&& self.begun(post)
                &&& post.system.block_number != block.header.block_number
            },
            Ok(outcomes) => {
                &&& exists|trace: Seq<Runtime>| #[trigger]
                    self.passes_through(post, block, outcomes@, trace)
                &&& forall|who: Seq<char>| #[trigger]
                    post.system.nonce_of(who) == self.nonce_after(
                        who,
                        submitted(block.extrinsics@, who),
                    )
            },
        }
    }

    /// A block whose extrinsics were passed through, with every nonce
    /// counted, was executed.
    proof fn lemma_block_executed(
        &self,
        post: &Self,
        block: types::Block,
        outcomes: Vec<DispatchResult>,
        trace: Seq<Runtime>,
    )
        requires
            self.passes_through(post, block, outcomes@, trace),
            forall|who: Seq<char>| #[trigger]
                post.system.nonce_of(who) == self.nonce_after(
                    who,
                    submitted(block.extrinsics@, who),
                ),
        ensures
            self.block_executed(post, block, Ok(outcomes)),
    {
        let r: Result<Vec<DispatchResult>, &'static str> = Ok(outcomes);
        assert(self.passes_through(post, block, r->Ok_0@, trace));
    }

    /// Executes a block. The block number advances, and the block must claim
    /// the number reached: else nothing more is done. Then each extrinsic,
    /// in order, has its caller's nonce counted and its call dispatched; a
    /// call that fails is recorded and the next one is taken up. At the end
    /// the block is finalized and the staking module is told of it. Returns
    /// the result of each extrinsic.
    pub fn execute_block(&mut self, block: types::Block) -> (r: Result<
        Vec<DispatchResult>,
        &'static str,
    >)
        ensures
            old(self).block_executed(final(self), block, r),
    {
        let ghost given = block;
        let crate::support::Block { header, extrinsics } = block;
        self.system.inc_block_number();
        if self.system.block_number() != header.block_number {
            return Err("block number does not match what is expected");
        }
        let ghost start = *self;
        let ghost all = extrinsics@;
        let ghost mut trace: Seq<Runtime> = seq![*self];
        let mut outcomes: Vec<DispatchResult> = Vec::new();
        for extrinsic in it: extrinsics.into_iter()
            invariant
                it.seq() == all,
                runs(trace, all.take(it.index()), outcomes@),
                trace[0] == start,
                trace.last() == *self,
                forall|who: Seq<char>| #[trigger]
                    self.system.nonce_of(who) == start.nonce_after(
                        who,
                        submitted(all.take(it.index()), who),
                    ),
        {
            let ghost k = it.index();
            let ghost before = *self;
            let ghost copy = extrinsic;
            let ghost earlier = outcomes@;
            let crate::support::Extrinsic { caller, call } = extrinsic;
            self.system.inc_nonce(&caller);
            let res = self.dispatch(caller, call);
            outcomes.push(res);
            proof {
                let grown = trace.push(*self);
                assert(all.take(k + 1).drop_last() =~= all.take(k));
                assert(all.take(k + 1).last() == copy);
                assert(before.extrinsic_applied(&*self, copy, res));
                assert forall|i: int| 0 <= i < k + 1 implies grown[i].extrinsic_applied(
                    &grown[i + 1],
                    all.take(k + 1)[i],
                    #[trigger] outcomes@[i],
                ) by {
                    if i < k {
                        assert(trace[i].extrinsic_applied(
                            &trace[i + 1],
                            all.take(k)[i],
                            earlier[i],
                        ));
                    }
                }
                trace = grown;
            }
        }
        proof {
            assert(all.take(all.len() as int) =~= all);
        }
        let ghost done = *self;
        let hash = self.system.finalize_block();
        let current = self.system.block_number();
        self.staking.on_block(current);
        proof {
            assert(done.system.finalized(&self.system, hash));
            assert(done.sealed(&*self));
            assert forall|who: Seq<char>| #[trigger]
                self.system.nonce_of(who) == old(self).nonce_after(
                    who,
                    submitted(given.extrinsics@, who),
                ) by {
                assert(done.system.nonce_of(who) == start.nonce_after(
                    who,
                    submitted(all, who),
                ));
            }
            assert(old(self).passes_through(&*self, given, outcomes@, trace));
            old(self).lemma_block_executed(&*self, given, outcomes, trace);
        }
        Ok(outcomes)
    }
}

/// A transaction: one operation of a module, with the account it is for.
#[derive(Debug, Clone)]
pub enum Transaction {
    /// Move `amount` from `from` to `to`.
    Transfer {
        /// The sender.
        from: String,
        /// The receiver.
        to: String,
        /// The amount to move.
        amount: u128,
    },
    /// Overwrite the balance of `who`.
    SetBalance {
        /// The account.
        who: String,
        /// Its new balance.
        amount: u128,
    },
    /// Register a validator.
    AddValidator {
        /// The validator.
        validator: String,
        /// Its commission in percent.
        commission: u8,
    },
    /// Lock `amount` of `who` with `validator`.
    Stake {
        /// The staking account.
        who: String,
        /// The amount to lock.
        amount: u128,
        /// The validator to stake with.
        validator: String,
    },
    /// Take the stake of `who` back.
    Unstake {
        /// The account.
        who: String,
    },
    /// Pay `who` the reward it has earned.
    ClaimRewards {
        /// The account.
        who: String,
    },
}

impl Transaction {
    /// A second transaction that says the same.
    pub fn duplicate(&self) -> (r: Self)
        ensures
            r == *self,
    {
        match self {
            Transaction::Transfer { from, to, amount } => Transaction::Transfer {
                from: from.clone(),
                to: to.clone(),
                amount: *amount,
            },
            Transaction::SetBalance { who, amount } => Transaction::SetBalance {
                who: who.clone(),
                amount: *amount,
            },
            Transaction::AddValidator { validator, commission } => Transaction::AddValidator {
                validator: validator.clone(),
                commission: *commission,
            },
            Transaction::Stake { who, amount, validator } => Transaction::Stake {
                who: who.clone(),
                amount: *amount,
                validator: validator.clone(),
            },
            Transaction::Unstake { who } => Transaction::Unstake { who: who.clone() },
            Transaction::ClaimRewards { who } => Transaction::ClaimRewards { who: who.clone() },
        }
    }
}

/// What became of a block of transactions.
#[derive(Debug)]
pub struct BlockResult {
    /// The number of the block.
    pub block_number: u32,
    /// The hash of the block.
    pub block_hash: [u8; 32],
    /// The transactions that were executed, in order.
    pub successful_transactions: Vec<Transaction>,
    /// The transactions that failed, in order, each with the name of its
    /// error.
    pub failed_transactions: Vec<(Transaction, String)>,
    /// The number of transactions that were executed.
    pub transaction_count: usize,
}

/// Whether `r` is a failure with the given text.
pub open spec fn fails_with(r: Result<(), String>, text: Seq<char>) -> bool {
    r matches Err(s) && s@ == text
}

/// Those of the first `n` transactions that were executed, in order.
pub open spec fn kept(
    transactions: Seq<Transaction>,
    outcomes: Seq<Result<(), String>>,
    n: int,
) -> Seq<Transaction>
    decreases n,
{
    if n <= 0 {
        Seq::empty()
    } else if outcomes[n - 1] is Ok {
        kept(transactions, outcomes, n - 1).push(transactions[n - 1])
    } else {
        kept(transactions, outcomes, n - 1)
    }
}

/// Those of the first `n` transactions that failed, in order, each with its
/// error.
pub open spec fn dropped(
    transactions: Seq<Transaction>,
    outcomes: Seq<Result<(), String>>,
    n: int,
) -> Seq<(Transaction, String)>
    decreases n,
{
    if n <= 0 {
        Seq::empty()
    } else if outcomes[n - 1] is Err {
        dropped(transactions, outcomes, n - 1).push((transactions[n - 1], outcomes[n - 1]->Err_0))
    } else {
        dropped(transactions, outcomes, n - 1)
    }
}

impl Runtime {
    /// How a transaction changes the runtime and ends. A transaction that
    /// fails ends with the name of its error. A transfer, a stake, an
    /// unstake and a claim count one extrinsic from their account, whatever
    /// becomes of them. A stake takes the amount from the staker's balance;
    /// an unstake and a claim credit what they free or pay to it, and fail
    /// with `OverflowInTransfer`, before anything is done, where that credit
    /// would exceed the range of balances.
    pub open spec fn executed(
        &self,
        post: &Self,
        transaction: Transaction,
        r: Result<(), String>,
    ) -> bool {
        match transaction {
            Transaction::Transfer { from, to, amount } => {
                &&& self.system.counted(&post.system, from@)
                &&& post.staking == self.staking
                &&& self.balances.transferred(&post.balances, from@, to@, amount as nat)
                &&& match self.balances.transfer_check(from@, to@, amount as nat) {
                    None => r is Ok,
                    Some(e) => fails_with(r, e.name_text()),
                }
            },
            Transaction::SetBalance { who, amount } => {
                &&& post.system == self.system
                &&& post.staking == self.staking
                &&& self.balances.balance_set(&post.balances, who@, amount)
                &&& r is Ok
            },
            Transaction::AddValidator { validator, commission } => {
                &&& post.system == self.system
                &&& post.balances == self.balances
                &&& self.staking.validator_added(&post.staking, validator@, commission)
                &&& match self.staking.add_validator_check(validator@, commission) {
                    None => r is Ok,
                    Some(e) => fails_with(r, e.name_text()),
                }
            },
            Transaction::Stake { who, amount, validator } => {
                let available = self.balances.balance_of(who@);
                &&& self.system.counted(&post.system, who@)
                &&& self.staking.staked(
                    &post.staking,
                    who@,
                    amount as nat,
                    validator@,
                    available,
                )
                &&& match self.staking.stake_check(who@, amount as nat, validator@, available) {
                    None => r is Ok && self.balances.balance_set(
                        &post.balances,
                        who@,
                        (available - amount) as u128,
                    ),
                    Some(e) => fails_with(r, e.name_text()) && post.balances == self.balances,
                }
            },
            Transaction::Unstake { who } => {
                &&& self.system.counted(&post.system, who@)
                &&& if self.staking.stakes@.contains_key(who@) && self.balances.balance_of(who@)
                    + self.staking.stakes@[who@].staked_amount > u128::MAX {
                    &&& post.staking == self.staking
                    &&& post.balances == self.balances
                    &&& fails_with(r, balances::BalancesError::OverflowInTransfer.name_text())
                } else {
                    &&& self.staking.unstaked(&post.staking, who@)
                    &&& match self.staking.unstake_check(who@) {
                        None => r is Ok && self.balances.balance_set(
                            &post.balances,
                            who@,
                            (self.balances.balance_of(who@)
                                + self.staking.stakes@[who@].staked_amount) as u128,
                        ),
                        Some(e) => fails_with(r, e.name_text()) && post.balances == self.balances,
                    }
                }
            },
            Transaction::ClaimRewards { who } => {
                &&& self.system.counted(&post.system, who@)
                &&& if self.staking.reward_of(who@) is Ok && self.balances.balance_of(who@)
                    + self.staking.reward_of(who@)->Ok_0 > u128::MAX {
                    &&& post.staking == self.staking
                    &&& post.balances == self.balances
                    &&& fails_with(r, balances::BalancesError::OverflowInTransfer.name_text())
                } else {
                    &&& self.staking.claimed(&post.staking, who@)
                    &&& match self.staking.claim_of(who@) {
                        Ok(n) => r is Ok && self.balances.balance_set(
                            &post.balances,
                            who@,
                            (self.balances.balance_of(who@) + n) as u128,
                        ),
                        Err(e) => fails_with(r, e.name_text()) && post.balances == self.balances,
                    }
                }
            },
        }
    }

    /// Executes one transaction.
    pub fn execute_transaction(&mut self, transaction: Transaction) -> (r: Result<(), String>)
        ensures
            old(self).executed(final(self), transaction, r),
            old(self).staking.totals_consistent() && (transaction matches Transaction::AddValidator {
                validator,
                ..
            } ==> old(self).staking.unreferenced(validator@))
                ==> final(self).staking.totals_consistent(),
    {
        match transaction {
            Transaction::Transfer { from, to, amount } => {
                self.system.inc_nonce(&from);
                match self.balances.transfer(from, to, amount) {
                    Ok(_) => Ok(()),
                    Err(e) => Err(e.name().to_owned()),
                }
            },
            Transaction::SetBalance { who, amount } => {
                self.balances.set_balance(&who, amount);
                Ok(())
            },
            Transaction::AddValidator { validator, commission } => {
                match self.staking.add_validator(validator, commission) {
                    staking::Result::Done(_) => Ok(()),
                    staking::Result::Failed(e) => Err(e.name().to_owned()),
                }
            },
            Transaction::Stake { who, amount, validator } => {
                self.system.inc_nonce(&who);
                let balances = &self.balances;
                let balance_check = |account: &String| -> (held: u128)
                    ensures
                        held == balances.balance_of(account@),
                    { balances.balance(account) };
                match self.staking.stake(who.clone(), amount, validator, balance_check) {
                    Ok(_) => {
                        let available = self.balances.balance(&who);
                        self.balances.set_balance(&who, available - amount);
                        Ok(())
                    },
                    Err(e) => Err(e.name().to_owned()),
                }
            },
            Transaction::Unstake { who } => {
                self.system.inc_nonce(&who);
                let current_balance = self.balances.balance(&who);
                let fits = match self.staking.get_stake_info(&who) {
                    Some(info) => current_balance.checked_add(info.staked_amount).is_some(),
                    None => true,
                };
                if !fits {
                    return Err(balances::BalancesError::OverflowInTransfer.name().to_owned());
                }
                match self.staking.unstake(who.clone()) {
                    Ok(amount) => {
                        self.balances.set_balance(&who, current_balance + amount);
                        Ok(())
                    },
                    Err(e) => Err(e.name().to_owned()),
                }
            },
            Transaction::ClaimRewards { who } => {
                self.system.inc_nonce(&who);
                let current_balance = self.balances.balance(&who);
                let fits = match self.staking.calculate_rewards(&who) {
                    Ok(due) => current_balance.checked_add(due).is_some(),
                    Err(_) => true,
                };
                if !fits {
                    return Err(balances::BalancesError::OverflowInTransfer.name().to_owned());
                }
                match self.staking.claim_rewards(who.clone()) {
                    Ok(rewards) => {
                        self.balances.set_balance(&who, current_balance + rewards);
                        Ok(())
                    },
                    Err(e) => Err(e.name().to_owned()),
                }
            },
        }
    }
}

/// Whether `trace` holds the states that the runtime passes through as it
/// executes `transactions` in order, with `outcomes` as their results.
pub open spec fn carries_out(
    trace: Seq<Runtime>,
    transactions: Seq<Transaction>,
    outcomes: Seq<Result<(), String>>,
) -> bool {
    &&& trace.len() == transactions.len() + 1
    &&& outcomes.len() == transactions.len()
    &&& forall|i: int|
        0 <= i < transactions.len() ==> trace[i].executed(
            &trace[i + 1],
            transactions[i],
            #[trigger] outcomes[i],
        )
}

/// Which transactions count as executed depends on their own outcomes only.
pub proof fn lemma_kept_prefix(
    transactions: Seq<Transaction>,
    first: Seq<Result<(), String>>,
    second: Seq<Result<(), String>>,
    n: int,
)
    requires
        n <= first.len(),
        n <= second.len(),
        forall|i: int| 0 <= i < n ==> first[i] == second[i],
    ensures
        kept(transactions, first, n) == kept(transactions, second, n),
        dropped(transactions, first, n) == dropped(transactions, second, n),
    decreases n,
{
    if n > 0 {
        lemma_kept_prefix(transactions, first, second, n - 1);
    }
}

/// The character of a hexadecimal digit.
pub open spec fn hex_digit(n: int) -> char {
    if n == 0 {
        '0'
    } else if n == 1 {
        '1'
    } else if n == 2 {
        '2'
    } else if n == 3 {
        '3'
    } else if n == 4 {
        '4'
    } else if n == 5 {
        '5'
    } else if n == 6 {
        '6'
    } else if n == 7 {
        '7'
    } else if n == 8 {
        '8'
    } else if n == 9 {
        '9'
    } else if n == 10 {
        'a'
    } else if n == 11 {
        'b'
    } else if n == 12 {
        'c'
    } else if n == 13 {
        'd'
    } else if n == 14 {
        'e'
    } else {
        'f'
    }
}

/// Bytes in hexadecimal: two lower-case digits for each byte.
pub open spec fn hex_text(bytes: Seq<u8>) -> Seq<char>
    decreases bytes.len(),
{
    if bytes.len() == 0 {
        Seq::empty()
    } else {
        hex_text(bytes.drop_last()).push(hex_digit(bytes.last() as int / 16)).push(
            hex_digit(bytes.last() as int % 16),
        )
    }
}

/// The text of one hexadecimal digit.
fn digit_text(n: u8) -> (r: &'static str)
    requires
        n < 16,
    ensures
        r@ == seq![hex_digit(n as int)],
{
    proof {
        reveal_strlit("0");
        reveal_strlit("1");
        reveal_strlit("2");
        reveal_strlit("3");
        reveal_strlit("4");
        reveal_strlit("5");
        reveal_strlit("6");
        reveal_strlit("7");
        reveal_strlit("8");
        reveal_strlit("9");
        reveal_strlit("a");
        reveal_strlit("b");
        reveal_strlit("c");
        reveal_strlit("d");
        reveal_strlit("e");
        reveal_strlit("f");
    }
    let r = if n == 0 {
        "0"
    } else if n == 1 {
        "1"
    } else if n == 2 {
        "2"
    } else if n == 3 {
        "3"
    } else if n == 4 {
        "4"
    } else if n == 5 {
        "5"
    } else if n == 6 {
        "6"
    } else if n == 7 {
        "7"
    } else if n == 8 {
        "8"
    } else if n == 9 {
        "9"
    } else if n == 10 {
        "a"
    } else if n == 11 {
        "b"
    } else if n == 12 {
        "c"
    } else if n == 13 {
        "d"
    } else if n == 14 {
        "e"
    } else {
        "f"
    };
    assert(r@ =~= seq![hex_digit(n as int)]);
    r
}

/// Writes bytes in hexadecimal.
pub fn hex_encode(bytes: &[u8]) -> (r: String)
    ensures
        r@ == hex_text(bytes@),
{
    let mut text = String::new();
    let mut i: usize = 0;
    proof {
        assert(bytes@.take(0) =~= Seq::<u8>::empty());
    }
    while i < bytes.len()
        invariant
            i <= bytes@.len(),
            text@ == hex_text(bytes@.take(i as int)),
        decreases bytes@.len() - i,
    {
        let b = bytes[i];
        let ghost before = text@;
        text.append(digit_text(b / 16));
        text.append(digit_text(b % 16));
        proof {
            assert(bytes@.take(i + 1).drop_last() =~= bytes@.take(i as int));
            assert(text@ =~= before.push(hex_digit(b as int / 16)).push(hex_digit(b as int % 16)));
        }
        i = i + 1;
    }
    proof {
        assert(bytes@.take(bytes@.len() as int) =~= bytes@);
    }
    text
}

impl Runtime {
    /// How the start of a block of transactions changes the runtime: the
    /// block number advances, and the staking module is told of the new
    /// block and pays the rewards earned up to it.
    pub open spec fn opened(&self, post: &Self) -> bool {
        &&& self.system.advanced(&post.system)
        &&& post.balances == self.balances
        &&& self.staking.at_block(post.system.block_number).distributed(&post.staking)
    }

    /// Whether `trace` leads from the start of a block through its
    /// transactions, with `outcomes` as their results, to the state that is
    /// finalized into `post`, and `result` reports it.
    pub open spec fn block_made(
        &self,
        post: &Self,
        transactions: Seq<Transaction>,
        result: BlockResult,
        trace: Seq<Runtime>,
        outcomes: Seq<Result<(), String>>,
    ) -> bool {
        &&& carries_out(trace, transactions, outcomes)
        &&& self.opened(&trace[0])
        &&& trace.last().system.finalized(&post.system, result.block_hash)
        &&& post.balances == trace.last().balances
        &&& post.staking == trace.last().staking
        &&& result.block_number == post.system.block_number
        &&& result.successful_transactions@ == kept(
            transactions,
            outcomes,
            transactions.len() as int,
        )
        &&& result.failed_transactions@ == dropped(
            transactions,
            outcomes,
            transactions.len() as int,
        )
        &&& result.transaction_count == result.successful_transactions@.len()
    }

    /// How making a block of transactions changes the runtime, and what is
    /// reported of it: the block is opened, each transaction is executed in
    /// order, whatever became of those before it, and the block is
    /// finalized.
    pub open spec fn block_created(
        &self,
        post: &Self,
        transactions: Seq<Transaction>,
        result: BlockResult,
    ) -> bool {
        exists|trace: Seq<Runtime>, outcomes: Seq<Result<(), String>>| #[trigger]
            self.block_made(post, transactions, result, trace, outcomes)
    }

    /// Makes the next block out of `transactions`.
    pub fn create_block(&mut self, transactions: Vec<Transaction>) -> (result: BlockResult)
        ensures
            old(self).block_created(final(self), transactions@, result),
    {
        self.system.inc_block_number();
        let current_block = self.system.block_number();
        self.staking.on_block(current_block);
        let ghost start = *self;
        let ghost all = transactions@;
        let ghost mut trace: Seq<Runtime> = seq![*self];
        let ghost mut outcomes: Seq<Result<(), String>> = Seq::empty();
        let mut successful_transactions: Vec<Transaction> = Vec::new();
        let mut failed_transactions: Vec<(Transaction, String)> = Vec::new();
        for transaction in it: transactions.into_iter()
            invariant
                it.seq() == all,
                carries_out(trace, all.take(it.index()), outcomes),
                trace[0] == start,
                trace.last() == *self,
                self.system.block_number == start.system.block_number,
                successful_transactions@ == kept(all, outcomes, it.index()),
                failed_transactions@ == dropped(all, outcomes, it.index()),
        {
            let ghost k = it.index();
            let ghost before = *self;
            let ghost earlier = outcomes;
            let outcome = self.execute_transaction(transaction.duplicate());
            proof {
                let grown = trace.push(*self);
                outcomes = earlier.push(outcome);
                assert(all.take(k + 1).drop_last() =~= all.take(k));
                assert(all.take(k + 1).last() == transaction);
                assert forall|i: int| 0 <= i < k + 1 implies grown[i].executed(
                    &grown[i + 1],
                    all.take(k + 1)[i],
                    #[trigger] outcomes[i],
                ) by {
                    if i < k {
                        assert(trace[i].executed(&trace[i + 1], all.take(k)[i], earlier[i]));
                    }
                }
                trace = grown;
                lemma_kept_prefix(all, earlier, outcomes, k);
            }
            match outcome {
                Ok(_) => {
                    successful_transactions.push(transaction);
                },
                Err(e) => {
                    failed_transactions.push((transaction, e));
                },
            }
        }
        proof {
            assert(all.take(all.len() as int) =~= all);
        }
        let block_hash = self.system.finalize_block();
        let transaction_count = successful_transactions.len();
        let result = BlockResult {
            block_number: current_block,
            block_hash,
            successful_transactions,
            failed_transactions,
            transaction_count,
        };
        proof {
            assert(old(self).block_made(&*self, all, result, trace, outcomes));
        }
        result
    }

    /// Whether every block from the first to the current one has a hash on
    /// record.
    pub fn verify_chain_integrity(&self) -> (r: bool)
        ensures
            r == (forall|n: u32|
                1 <= n <= self.system.block_number ==> self.system.block_hashes@.contains_key(n)),
    {
        let last = self.system.block_number();
        let all_hashes = self.system.all_block_hashes();
        let mut n: u32 = 0;
        while n < last
            invariant
                n <= last,
                last == self.system.block_number,
                *all_hashes == self.system.block_hashes,
                forall|m: u32| 1 <= m <= n ==> self.system.block_hashes@.contains_key(m),
            decreases last - n,
        {
            n = n + 1;
            if !all_hashes.contains_key(&n) {
                return false;
            }
        }
        true
    }
}

impl Dispatch for Runtime {
    type Caller = types::AccountId;

    type Call = RuntimeCall;

    /// Routes a call to the module that owns it and hands its result back.
    fn dispatch(&mut self, caller: Self::Caller, call: Self::Call) -> (r: DispatchResult)
        ensures
            old(self).dispatched(final(self), caller, call, r),
    {
        match call {
            RuntimeCall::Balances(call) => self.balances.dispatch(caller, call),
            RuntimeCall::Staking(call) => self.staking.dispatch(caller, call),
        }
    }
}

} // verus!
