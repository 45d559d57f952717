//! The staking module: the registry of validators, the stake each account
//! has locked with one of them, and the rewards that stakes earn.

use crate::identity::Identity;
use crate::scalar::{difference_of, less_than, sum_of, Scalar};
use crate::support::{Dispatch, DispatchResult};
use crate::system::AccountOf;
use crate::table::{
    lemma_keys_differ, lemma_map_total_of_nothing, map_total, place_of, OrderedMap,
};
use vstd::prelude::*;

verus! {

/// The types of the staking module.
pub trait Config: crate::system::Config {
    /// An amount of tokens.
    type Balance: Scalar;
}

/// How a registry operation ends.
#[derive(Debug, PartialEq)]
pub enum Result<T, E> {
    /// Done, with what it yields.
    Done(T),
    /// Not done, with the reason.
    Failed(E),
}

impl<T, E> Result<T, E> {
    /// Whether the operation was done.
    pub fn is_ok(&self) -> (r: bool)
        ensures
            r == (self is Done),
    {
        match self {
            Result::Done(_) => true,
            Result::Failed(_) => false,
        }
    }

    /// Whether the operation was not done.
    pub fn is_err(&self) -> (r: bool)
        ensures
            r == (self is Failed),
    {
        match self {
            Result::Done(_) => false,
            Result::Failed(_) => true,
        }
    }

    /// What a done operation yields.
    pub fn unwrap(self) -> (r: T)
        requires
            self is Done,
        ensures
            self == Result::<T, E>::Done(r),
    {
        match self {
            Result::Done(val) => val,
            Result::Failed(_) => vstd::pervasive::unreached(),
        }
    }

    /// What a done operation yields, or `default` where it was not done.
    pub fn unwrap_or(self, default: T) -> (r: T)
        ensures
            r == (match self {
                Result::Done(val) => val,
                Result::Failed(_) => default,
            }),
    {
        match self {
            Result::Done(val) => val,
            Result::Failed(_) => default,
        }
    }
}

/// Why a staking operation failed.
#[derive(Debug, PartialEq, Eq, Clone, Copy, Structural)]
pub enum StakingError {
    /// The account holds less than it wants to stake.
    InsufficientBalance,
    /// The account has no stake.
    NotStaked,
    /// The account has a stake already.
    AlreadyStaked,
    /// The amount is below the minimum stake.
    MinimumStakeNotMet,
    /// The validator is not registered, not active, or its commission is
    /// above 100.
    InvalidValidator,
    /// The registry is full.
    TooManyValidators,
    /// The account is not a validator.
    NotValidator,
    /// The account is a validator already.
    AlreadyValidator,
    /// A total or a reward does not fit the range it is kept in.
    RewardCalculationError,
    /// The stake is still locked.
    UnstakingPeriodNotMet,
}

impl StakingError {
    /// The sentence that describes the error.
    pub open spec fn message_text(self) -> Seq<char> {
        match self {
            StakingError::InsufficientBalance => "Insufficient balance to stake"@,
            StakingError::NotStaked => "Account is not staking"@,
            StakingError::AlreadyStaked => "Account is already staking"@,
            StakingError::MinimumStakeNotMet => "Minimum stake amount not met"@,
            StakingError::InvalidValidator => "Invalid validator"@,
            StakingError::TooManyValidators => "Too many validators"@,
            StakingError::NotValidator => "Account is not a validator"@,
            StakingError::AlreadyValidator => "Account is already a validator"@,
            StakingError::RewardCalculationError => "Error calculating rewards"@,
            StakingError::UnstakingPeriodNotMet => "Unstaking period not met"@,
        }
    }

    /// The name of the error.
    pub open spec fn name_text(self) -> Seq<char> {
        match self {
            StakingError::InsufficientBalance => "InsufficientBalance"@,
            StakingError::NotStaked => "NotStaked"@,
            StakingError::AlreadyStaked => "AlreadyStaked"@,
            StakingError::MinimumStakeNotMet => "MinimumStakeNotMet"@,
            StakingError::InvalidValidator => "InvalidValidator"@,
            StakingError::TooManyValidators => "TooManyValidators"@,
            StakingError::NotValidator => "NotValidator"@,
            StakingError::AlreadyValidator => "AlreadyValidator"@,
            StakingError::RewardCalculationError => "RewardCalculationError"@,
            StakingError::UnstakingPeriodNotMet => "UnstakingPeriodNotMet"@,
        }
    }

    /// The sentence that describes the error.
    pub fn message(&self) -> (r: &'static str)
        ensures
            r@ == self.message_text(),
    {
        match self {
            StakingError::InsufficientBalance => "Insufficient balance to stake",
            StakingError::NotStaked => "Account is not staking",
            StakingError::AlreadyStaked => "Account is already staking",
            StakingError::MinimumStakeNotMet => "Minimum stake amount not met",
            StakingError::InvalidValidator => "Invalid validator",
            StakingError::TooManyValidators => "Too many validators",
            StakingError::NotValidator => "Account is not a validator",
            StakingError::AlreadyValidator => "Account is already a validator",
            StakingError::RewardCalculationError => "Error calculating rewards",
            StakingError::UnstakingPeriodNotMet => "Unstaking period not met",
        }
    }

    /// The name of the error.
    pub fn name(&self) -> (r: &'static str)
        ensures
            r@ == self.name_text(),
    {
        match self {
            StakingError::InsufficientBalance => "InsufficientBalance",
            StakingError::NotStaked => "NotStaked",
            StakingError::AlreadyStaked => "AlreadyStaked",
            StakingError::MinimumStakeNotMet => "MinimumStakeNotMet",
            StakingError::InvalidValidator => "InvalidValidator",
            StakingError::TooManyValidators => "TooManyValidators",
            StakingError::NotValidator => "NotValidator",
            StakingError::AlreadyValidator => "AlreadyValidator",
            StakingError::RewardCalculationError => "RewardCalculationError",
            StakingError::UnstakingPeriodNotMet => "UnstakingPeriodNotMet",
        }
    }
}

/// The stake of one account.
#[derive(Debug, Clone)]
pub struct StakeInfo<T: Config> {
    /// The amount locked.
    pub staked_amount: T::Balance,
    /// The validator the stake is with.
    pub validator: T::AccountId,
    /// The block at which the stake was made.
    pub stake_block: T::BlockNumber,
    /// The block up to which rewards were paid.
    pub last_reward_block: T::BlockNumber,
    /// All rewards paid so far.
    pub total_rewards: T::Balance,
}

/// What a stake says, in plain values.
pub struct StakeModel<Id> {
    /// The amount locked.
    pub staked_amount: nat,
    /// The validator the stake is with.
    pub validator: Id,
    /// The block at which the stake was made.
    pub stake_block: nat,
    /// The block up to which rewards were paid.
    pub last_reward_block: nat,
    /// All rewards paid so far.
    pub total_rewards: nat,
}

impl<T: Config> View for StakeInfo<T> {
    type V = StakeModel<AccountOf<T>>;

    open spec fn view(&self) -> StakeModel<AccountOf<T>> {
        StakeModel {
            staked_amount: self.staked_amount.value(),
            validator: self.validator@,
            stake_block: self.stake_block.value(),
            last_reward_block: self.last_reward_block.value(),
            total_rewards: self.total_rewards.value(),
        }
    }
}

/// What the registry holds of one validator.
#[derive(Debug, Clone)]
pub struct ValidatorInfo<T: Config> {
    /// The sum of the stakes with this validator.
    pub total_stake: T::Balance,
    /// The share of each reward that the validator keeps, in percent.
    pub commission_rate: u8,
    /// Whether the validator takes stakes.
    pub is_active: bool,
    /// The number of accounts with a stake with this validator.
    pub nominators_count: u32,
    /// The number of blocks the validator has produced.
    pub blocks_produced: u32,
}

/// What the registry holds of a validator, in plain values.
pub struct ValidatorModel {
    /// The sum of the stakes with this validator.
    pub total_stake: nat,
    /// The share of each reward that the validator keeps, in percent.
    pub commission_rate: u8,
    /// Whether the validator takes stakes.
    pub is_active: bool,
    /// The number of accounts with a stake with this validator.
    pub nominators_count: u32,
    /// The number of blocks the validator has produced.
    pub blocks_produced: u32,
}

impl<T: Config> View for ValidatorInfo<T> {
    type V = ValidatorModel;

    open spec fn view(&self) -> ValidatorModel {
        ValidatorModel {
            total_stake: self.total_stake.value(),
            commission_rate: self.commission_rate,
            is_active: self.is_active,
            nominators_count: self.nominators_count,
            blocks_produced: self.blocks_produced,
        }
    }
}

/// An entry of the event log.
#[derive(Debug, Clone)]
pub enum StakingEvent<T: Config> {
    /// An account locked a stake with a validator.
    Staked {
        /// The staking account.
        who: T::AccountId,
        /// The amount locked.
        amount: T::Balance,
        /// The validator chosen.
        validator: T::AccountId,
    },
    /// An account took its stake back.
    Unstaked {
        /// The account.
        who: T::AccountId,
        /// The amount freed.
        amount: T::Balance,
    },
    /// A validator was registered.
    ValidatorAdded {
        /// The validator.
        validator: T::AccountId,
    },
    /// A validator left the registry.
    ValidatorRemoved {
        /// The validator.
        validator: T::AccountId,
    },
    /// A reward was paid.
    RewardsPaid {
        /// The account rewarded.
        who: T::AccountId,
        /// The reward.
        amount: T::Balance,
    },
    /// A stake was cut.
    SlashApplied {
        /// The account.
        who: T::AccountId,
        /// The amount cut.
        amount: T::Balance,
    },
}

/// An entry of the event log, in plain values.
pub enum EventModel<Id> {
    /// An account locked a stake with a validator.
    Staked {
        /// The staking account.
        who: Id,
        /// The amount locked.
        amount: nat,
        /// The validator chosen.
        validator: Id,
    },
    /// An account took its stake back.
    Unstaked {
        /// The account.
        who: Id,
        /// The amount freed.
        amount: nat,
    },
    /// A validator was registered.
    ValidatorAdded {
        /// The validator.
        validator: Id,
    },
    /// A validator left the registry.
    ValidatorRemoved {
        /// The validator.
        validator: Id,
    },
    /// A reward was paid.
    RewardsPaid {
        /// The account rewarded.
        who: Id,
        /// The reward.
        amount: nat,
    },
    /// A stake was cut.
    SlashApplied {
        /// The account.
        who: Id,
        /// The amount cut.
        amount: nat,
    },
}

impl<T: Config> View for StakingEvent<T> {
    type V = EventModel<AccountOf<T>>;

    open spec fn view(&self) -> EventModel<AccountOf<T>> {
        match self {
            StakingEvent::Staked { who, amount, validator } => EventModel::Staked {
                who: who@,
                amount: amount.value(),
                validator: validator@,
            },
            StakingEvent::Unstaked { who, amount } => EventModel::Unstaked {
                who: who@,
                amount: amount.value(),
            },
            StakingEvent::ValidatorAdded { validator } => EventModel::ValidatorAdded {
                validator: validator@,
            },
            StakingEvent::ValidatorRemoved { validator } => EventModel::ValidatorRemoved {
                validator: validator@,
            },
            StakingEvent::RewardsPaid { who, amount } => EventModel::RewardsPaid {
                who: who@,
                amount: amount.value(),
            },
            StakingEvent::SlashApplied { who, amount } => EventModel::SlashApplied {
                who: who@,
                amount: amount.value(),
            },
        }
    }
}

/// The events of a log, in plain values.
pub open spec fn log_of<T: Config>(events: Seq<StakingEvent<T>>) -> Seq<EventModel<AccountOf<T>>> {
    events.map_values(|e: StakingEvent<T>| e@)
}

/// The weight of a stake in the sum of all stakes: its amount.
pub open spec fn any_stake<T: Config>() -> spec_fn(AccountOf<T>, StakeInfo<T>) -> nat {
    |id: AccountOf<T>, s: StakeInfo<T>| s.staked_amount.value()
}

/// The weight of a stake in the sum of the stakes with `validator`: its
/// amount where it is with that validator, else nothing.
pub open spec fn stake_with<T: Config>(validator: AccountOf<T>) -> spec_fn(
    AccountOf<T>,
    StakeInfo<T>,
) -> nat {
    |id: AccountOf<T>, s: StakeInfo<T>|
        if s.validator@ == validator {
            s.staked_amount.value()
        } else {
            0
        }
}

/// The weight of a stake in the count of the stakes with `validator`.
pub open spec fn nominator_of<T: Config>(validator: AccountOf<T>) -> spec_fn(
    AccountOf<T>,
    StakeInfo<T>,
) -> nat {
    |id: AccountOf<T>, s: StakeInfo<T>|
        if s.validator@ == validator {
            1
        } else {
            0
        }
}

/// The state of the staking module.
#[derive(Debug)]
pub struct Pallet<T: Config> {
    /// The stake of every staking account.
    pub stakes: OrderedMap<T::AccountId, StakeInfo<T>>,
    /// The registry of validators.
    pub validators: OrderedMap<T::AccountId, ValidatorInfo<T>>,
    /// The least amount that can be staked.
    pub minimum_stake: T::Balance,
    /// The reward per block for each 1000 tokens staked.
    pub reward_rate: T::Balance,
    /// The number of blocks for which a stake stays locked.
    pub unstaking_period: T::BlockNumber,
    /// The most validators the registry takes.
    pub max_validators: u32,
    /// The sum of all stakes.
    pub total_staked: T::Balance,
    /// The block the module was last told of.
    pub current_block: T::BlockNumber,
    /// The event log, oldest first.
    pub events: Vec<StakingEvent<T>>,
}

impl<T: Config> Pallet<T> {
    /// The event log in plain values.
    pub open spec fn event_log(&self) -> Seq<EventModel<AccountOf<T>>> {
        log_of::<T>(self.events@)
    }

    /// The sum of all stakes on record.
    pub open spec fn staked_in_all(&self) -> nat {
        map_total(self.stakes@, any_stake::<T>())
    }

    /// The sum of the stakes on record with `validator`.
    pub open spec fn staked_with(&self, validator: AccountOf<T>) -> nat {
        map_total(self.stakes@, stake_with::<T>(validator))
    }

    /// The number of stakes on record with `validator`.
    pub open spec fn nominators_of(&self, validator: AccountOf<T>) -> nat {
        map_total(self.stakes@, nominator_of::<T>(validator))
    }

    /// Whether the totals agree with the stakes: the total staked is the sum
    /// of all stakes, and each registered validator's total and number of
    /// nominators are the sum and the number of the stakes with it.
    pub open spec fn totals_consistent(&self) -> bool {
        &&& self.total_staked.value() == self.staked_in_all()
        &&& forall|v: AccountOf<T>| #[trigger]
            self.validators@.contains_key(v) ==> self.validators@[v].total_stake.value()
                == self.staked_with(v) && self.validators@[v].nominators_count
                == self.nominators_of(v)
    }

    /// Whether the sums over the stakes in `post` are those of `self` with
    /// `amount` more, and one stake more, with `validator`.
    pub open spec fn sums_grown(
        &self,
        post: &Self,
        validator: AccountOf<T>,
        amount: int,
        stakes: int,
    ) -> bool {
        &&& post.staked_in_all() == self.staked_in_all() + amount
        &&& forall|v: AccountOf<T>| #[trigger]
            post.staked_with(v) == self.staked_with(v) + (if v == validator {
                amount
            } else {
                0
            })
        &&& forall|v: AccountOf<T>| #[trigger]
            post.nominators_of(v) == self.nominators_of(v) + (if v == validator {
                stakes
            } else {
                0
            })
    }

    /// Whether no stake is with `validator`.
    pub open spec fn unreferenced(&self, validator: AccountOf<T>) -> bool {
        forall|who: AccountOf<T>|
            self.stakes@.contains_key(who) ==> (#[trigger] self.stakes@[who]).validator@
                != validator
    }

    /// Whether there is nothing staked, with any validator.
    pub open spec fn nothing_staked(&self) -> bool {
        &&& self.staked_in_all() == 0
        &&& forall|v: AccountOf<T>| #[trigger] self.staked_with(v) == 0
        &&& forall|v: AccountOf<T>| #[trigger] self.nominators_of(v) == 0
    }

    /// Whether the sums over the stakes are the same in `post`.
    pub open spec fn sums_kept(&self, post: &Self) -> bool {
        &&& post.staked_in_all() == self.staked_in_all()
        &&& forall|v: AccountOf<T>| #[trigger] post.staked_with(v) == self.staked_with(v)
        &&& forall|v: AccountOf<T>| #[trigger] post.nominators_of(v) == self.nominators_of(v)
    }

    /// Whether everything but the stakes, the registry, the total and the
    /// log is the same in `post`.
    pub open spec fn same_settings(&self, post: &Self) -> bool {
        &&& post.minimum_stake == self.minimum_stake
        &&& post.reward_rate == self.reward_rate
        &&& post.unstaking_period == self.unstaking_period
        &&& post.max_validators == self.max_validators
        &&& post.current_block == self.current_block
    }

    /// A module with no stake and no validator, which takes ten validators,
    /// has no minimum stake, pays no reward and locks no stake.
    pub fn new() -> (r: Self)
        ensures
            r.stakes@ == Map::<AccountOf<T>, StakeInfo<T>>::empty(),
            r.validators@ == Map::<AccountOf<T>, ValidatorInfo<T>>::empty(),
            r.minimum_stake.value() == 0,
            r.reward_rate.value() == 0,
            r.unstaking_period.value() == 0,
            r.max_validators == 10,
            r.total_staked.value() == 0,
            r.current_block.value() == 0,
            r.events@ == Seq::<StakingEvent<T>>::empty(),
            r.nothing_staked(),
            r.totals_consistent(),
    {
        Self {
            stakes: OrderedMap::new(),
            validators: OrderedMap::new(),
            minimum_stake: T::Balance::zero(),
            reward_rate: T::Balance::zero(),
            unstaking_period: T::BlockNumber::zero(),
            max_validators: 10,
            total_staked: T::Balance::zero(),
            current_block: T::BlockNumber::zero(),
            events: Vec::new(),
        }
    }

    /// A module with no stake and no validator, with the given settings.
    pub fn new_with_config(
        minimum_stake: T::Balance,
        reward_rate: T::Balance,
        unstaking_period: T::BlockNumber,
        max_validators: u32,
    ) -> (r: Self)
        ensures
            r.stakes@ == Map::<AccountOf<T>, StakeInfo<T>>::empty(),
            r.validators@ == Map::<AccountOf<T>, ValidatorInfo<T>>::empty(),
            r.minimum_stake == minimum_stake,
            r.reward_rate == reward_rate,
            r.unstaking_period == unstaking_period,
            r.max_validators == max_validators,
            r.total_staked.value() == 0,
            r.current_block.value() == 0,
            r.events@ == Seq::<StakingEvent<T>>::empty(),
            r.nothing_staked(),
            r.totals_consistent(),
    {
        Self {
            stakes: OrderedMap::new(),
            validators: OrderedMap::new(),
            minimum_stake,
            reward_rate,
            unstaking_period,
            max_validators,
            total_staked: T::Balance::zero(),
            current_block: T::BlockNumber::zero(),
            events: Vec::new(),
        }
    }

    /// The error that registering a validator meets, if any.
    pub open spec fn add_validator_check(
        &self,
        validator: AccountOf<T>,
        commission_rate: u8,
    ) -> Option<StakingError> {
        if self.validators@.contains_key(validator) {
            Some(StakingError::AlreadyValidator)
        } else if self.validators@.len() >= self.max_validators {
            Some(StakingError::TooManyValidators)
        } else if commission_rate > 100 {
            Some(StakingError::InvalidValidator)
        } else {
            None
        }
    }

    /// How registering a validator changes the module: nothing where it meets
    /// an error; else the registry gains the validator, active, with no
    /// stake and no nominator, and the log gains `ValidatorAdded`.
    pub open spec fn validator_added(
        &self,
        post: &Self,
        validator: AccountOf<T>,
        commission_rate: u8,
    ) -> bool {
        &&& self.same_settings(post)
        &&& post.stakes == self.stakes
        &&& post.total_staked == self.total_staked
        &&& match self.add_validator_check(validator, commission_rate) {
            Some(_) => post.validators@ == self.validators@ && post.event_log()
                == self.event_log(),
            None => {
                &&& post.validators@.dom() == self.validators@.dom().insert(validator)
                &&& forall|v: AccountOf<T>|
                    v != validator && self.validators@.contains_key(v)
                        ==> #[trigger] post.validators@[v] == self.validators@[v]
                &&& post.validators@[validator]@ == (ValidatorModel {
                    total_stake: 0,
                    commission_rate,
                    is_active: true,
                    nominators_count: 0,
                    blocks_produced: 0,
                })
                &&& post.event_log() == self.event_log().push(
                    EventModel::ValidatorAdded { validator },
                )
            },
        }
    }

    /// Registers `validator` with the given commission in percent.
    pub fn add_validator(&mut self, validator: T::AccountId, commission_rate: u8) -> (r: Result<
        (),
        StakingError,
    >)
        ensures
            r == (match old(self).add_validator_check(validator@, commission_rate) {
                Some(e) => Result::<(), StakingError>::Failed(e),
                None => Result::<(), StakingError>::Done(()),
            }),
            old(self).validator_added(final(self), validator@, commission_rate),
            old(self).totals_consistent() && (r is Done ==> old(self).unreferenced(validator@))
                ==> final(self).totals_consistent(),
    {
        proof {
            use_type_invariant(&self.stakes);
            self.stakes.lemma_entries();
            if self.unreferenced(validator@) {
                lemma_map_total_of_nothing(self.stakes@, stake_with::<T>(validator@));
                lemma_map_total_of_nothing(self.stakes@, nominator_of::<T>(validator@));
            }
        }
        if self.validators.contains_key(&validator) {
            return Result::Failed(StakingError::AlreadyValidator);
        }
        if self.validators.len() >= self.max_validators as usize {
            return Result::Failed(StakingError::TooManyValidators);
        }
        if commission_rate > 100 {
            return Result::Failed(StakingError::InvalidValidator);
        }
        let validator_info = ValidatorInfo {
            total_stake: T::Balance::zero(),
            commission_rate,
            is_active: true,
            nominators_count: 0,
            blocks_produced: 0,
        };
        self.validators.insert(validator.duplicate(), validator_info);
        let event = StakingEvent::ValidatorAdded { validator };
        self.events.push(event);
        proof {
            assert(self.event_log() =~= old(self).event_log().push(event@));
        }
        Result::Done(())
    }

    /// How removing a validator changes the module: nothing where it is not
    /// registered; else it leaves the registry and the log gains
    /// `ValidatorRemoved`. The stakes with it stay as they are.
    pub open spec fn validator_removed(&self, post: &Self, validator: AccountOf<T>) -> bool {
        &&& self.same_settings(post)
        &&& post.stakes == self.stakes
        &&& post.total_staked == self.total_staked
        &&& post.validators@ == self.validators@.remove(validator)
        &&& post.event_log() == (if self.validators@.contains_key(validator) {
            self.event_log().push(EventModel::ValidatorRemoved { validator })
        } else {
            self.event_log()
        })
    }

    /// Takes `validator` out of the registry.
    pub fn remove_validator(&mut self, validator: &T::AccountId) -> (r: Result<(), StakingError>)
        ensures
            r == (if old(self).validators@.contains_key(validator@) {
                Result::<(), StakingError>::Done(())
            } else {
                Result::<(), StakingError>::Failed(StakingError::NotValidator)
            }),
            old(self).validator_removed(final(self), validator@),
            old(self).totals_consistent() ==> final(self).totals_consistent(),
    {
        if !self.validators.contains_key(validator) {
            proof {
                assert(self.validators@ =~= self.validators@.remove(validator@));
            }
            return Result::Failed(StakingError::NotValidator);
        }
        self.validators.remove(validator);
        let event = StakingEvent::ValidatorRemoved { validator: validator.duplicate() };
        self.events.push(event);
        proof {
            assert(self.event_log() =~= old(self).event_log().push(event@));
        }
        Result::Done(())
    }

    /// The stake of `who`, if it has one.
    pub fn get_stake_info(&self, who: &T::AccountId) -> (r: Option<&StakeInfo<T>>)
        ensures
            r == (if self.stakes@.contains_key(who@) {
                Some(&self.stakes@[who@])
            } else {
                None
            }),
    {
        self.stakes.get(who)
    }

    /// What the registry holds of `validator`, if it is registered.
    pub fn get_validator_info(&self, validator: &T::AccountId) -> (r: Option<&ValidatorInfo<T>>)
        ensures
            r == (if self.validators@.contains_key(validator@) {
                Some(&self.validators@[validator@])
            } else {
                None
            }),
    {
        self.validators.get(validator)
    }

    /// The sum of all stakes, as the module keeps it.
    pub fn get_total_staked(&self) -> (r: T::Balance)
        ensures
            r == self.total_staked,
    {
        self.total_staked
    }

    /// Whether `who` has a stake.
    pub fn is_staking(&self, who: &T::AccountId) -> (r: bool)
        ensures
            r == self.stakes@.contains_key(who@),
    {
        self.stakes.contains_key(who)
    }

    /// Whether `who` is a registered validator.
    pub fn is_validator(&self, who: &T::AccountId) -> (r: bool)
        ensures
            r == self.validators@.contains_key(who@),
    {
        self.validators.contains_key(who)
    }

    /// The event log, oldest first.
    pub fn get_events(&self) -> (r: &Vec<StakingEvent<T>>)
        ensures
            *r == self.events,
    {
        &self.events
    }

    /// Empties the event log.
    pub fn clear_events(&mut self)
        ensures
            final(self).events@ == Seq::<StakingEvent<T>>::empty(),
            old(self).same_settings(final(self)),
            final(self).stakes == old(self).stakes,
            final(self).validators == old(self).validators,
            final(self).total_staked == old(self).total_staked,
    {
        self.events.clear();
    }
}

impl<T: Config> Pallet<T> {
    /// The error that a stake meets before the staker's balance is asked
    /// for, if any.
    pub open spec fn stake_precheck(
        &self,
        who: AccountOf<T>,
        amount: nat,
        validator: AccountOf<T>,
    ) -> Option<StakingError> {
        if self.stakes@.contains_key(who) {
            Some(StakingError::AlreadyStaked)
        } else if amount < self.minimum_stake.value() {
            Some(StakingError::MinimumStakeNotMet)
        } else if !self.validators@.contains_key(validator)
            || !self.validators@[validator].is_active {
            Some(StakingError::InvalidValidator)
        } else {
            None
        }
    }

    /// The error that a stake meets, if any, where the staker holds
    /// `available`. In this order: the account has a stake; the amount is
    /// below the minimum; the validator is not registered or not active; the
    /// staker holds too little; the validator's total, its number of
    /// nominators or the total staked would leave its range.
    pub open spec fn stake_check(
        &self,
        who: AccountOf<T>,
        amount: nat,
        validator: AccountOf<T>,
        available: nat,
    ) -> Option<StakingError> {
        if self.stake_precheck(who, amount, validator) is Some {
            self.stake_precheck(who, amount, validator)
        } else if available < amount {
            Some(StakingError::InsufficientBalance)
        } else if self.validators@[validator].total_stake.value() + amount > T::Balance::ceiling()
            || self.validators@[validator].nominators_count == u32::MAX
            || self.total_staked.value() + amount > T::Balance::ceiling() {
            Some(StakingError::RewardCalculationError)
        } else {
            None
        }
    }

    /// How a stake changes the module: nothing where it meets an error; else
    /// the account gains a stake stamped with the current block, the
    /// validator's total and number of nominators and the total staked grow,
    /// and the log gains `Staked`.
    pub open spec fn staked(
        &self,
        post: &Self,
        who: AccountOf<T>,
        amount: nat,
        validator: AccountOf<T>,
        available: nat,
    ) -> bool {
        match self.stake_check(who, amount, validator, available) {
            Some(_) => *post == *self,
            None => {
                &&& self.same_settings(post)
                &&& post.stakes@ == self.stakes@.insert(who, post.stakes@[who])
                &&& post.stakes@[who]@ == (StakeModel {
                    staked_amount: amount,
                    validator,
                    stake_block: self.current_block.value(),
                    last_reward_block: self.current_block.value(),
                    total_rewards: 0,
                })
                &&& post.validators@ == self.validators@.insert(
                    validator,
                    post.validators@[validator],
                )
                &&& post.validators@[validator]@ == (ValidatorModel {
                    total_stake: self.validators@[validator].total_stake.value() + amount,
                    nominators_count: (self.validators@[validator].nominators_count + 1) as u32,
                    ..self.validators@[validator]@
                })
                &&& post.total_staked.value() == self.total_staked.value() + amount
                &&& self.sums_grown(post, validator, amount as int, 1)
                &&& post.event_log() == self.event_log().push(
                    EventModel::Staked { who, amount, validator },
                )
            },
        }
    }

    /// Locks `amount` of `who` with `validator`, where `who` holds
    /// `available`. The module only records the stake: taking the amount
    /// from the staker's balance is the caller's part.
    pub fn stake_with_balance(
        &mut self,
        who: T::AccountId,
        amount: T::Balance,
        validator: T::AccountId,
        available: T::Balance,
    ) -> (r: std::result::Result<(), StakingError>)
        ensures
            r == (match old(self).stake_check(
                who@,
                amount.value(),
                validator@,
                available.value(),
            ) {
                Some(e) => Err(e),
                None => Ok(()),
            }),
            old(self).staked(final(self), who@, amount.value(), validator@, available.value()),
            old(self).totals_consistent() ==> final(self).totals_consistent(),
    {
        if self.stakes.contains_key(&who) {
            return Err(StakingError::AlreadyStaked);
        }
        if less_than(&amount, &self.minimum_stake) {
            return Err(StakingError::MinimumStakeNotMet);
        }
        let new_info = match self.validators.get(&validator) {
            None => {
                return Err(StakingError::InvalidValidator);
            },
            Some(validator_info) => {
                if !validator_info.is_active {
                    return Err(StakingError::InvalidValidator);
                }
                if less_than(&available, &amount) {
                    return Err(StakingError::InsufficientBalance);
                }
                let new_total = match sum_of(&validator_info.total_stake, &amount) {
                    Some(t) => t,
                    None => {
                        return Err(StakingError::RewardCalculationError);
                    },
                };
                if validator_info.nominators_count == u32::MAX {
                    return Err(StakingError::RewardCalculationError);
                }
                ValidatorInfo::<T> {
                    total_stake: new_total,
                    commission_rate: validator_info.commission_rate,
                    is_active: validator_info.is_active,
                    nominators_count: validator_info.nominators_count + 1,
                    blocks_produced: validator_info.blocks_produced,
                }
            },
        };
        let new_total_staked = match sum_of(&self.total_staked, &amount) {
            Some(t) => t,
            None => {
                return Err(StakingError::RewardCalculationError);
            },
        };
        let stake_info = StakeInfo::<T> {
            staked_amount: amount,
            validator: validator.duplicate(),
            stake_block: self.current_block,
            last_reward_block: self.current_block,
            total_rewards: T::Balance::zero(),
        };
        self.validators.insert(validator.duplicate(), new_info);
        self.stakes.insert(who.duplicate(), stake_info);
        self.total_staked = new_total_staked;
        let event = StakingEvent::Staked { who, amount, validator };
        self.events.push(event);
        proof {
            assert(self.event_log() =~= old(self).event_log().push(event@));
        }
        Ok(())
    }

    /// Locks `amount` of `who` with `validator`. `balance_check` tells what
    /// an account holds; it is asked for `who` once the stake has passed the
    /// checks that need no balance.
    pub fn stake(
        &mut self,
        who: T::AccountId,
        amount: T::Balance,
        validator: T::AccountId,
        balance_check: impl Fn(&T::AccountId) -> T::Balance,
    ) -> (r: std::result::Result<(), StakingError>)
        requires
            call_requires(balance_check, (&who,)),
        ensures
            match old(self).stake_precheck(who@, amount.value(), validator@) {
                Some(e) => r == Err::<(), StakingError>(e) && *final(self) == *old(self),
                None => exists|available: T::Balance|
                    {
                        &&& call_ensures(balance_check, (&who,), available)
                        &&& r == (match old(self).stake_check(
                            who@,
                            amount.value(),
                            validator@,
                            available.value(),
                        ) {
                            Some(e) => Err(e),
                            None => Ok(()),
                        })
                        &&& old(self).staked(
                            final(self),
                            who@,
                            amount.value(),
                            validator@,
                            available.value(),
                        )
                    },
            },
            old(self).totals_consistent() ==> final(self).totals_consistent(),
    {
        if self.stakes.contains_key(&who) {
            return Err(StakingError::AlreadyStaked);
        }
        if less_than(&amount, &self.minimum_stake) {
            return Err(StakingError::MinimumStakeNotMet);
        }
        match self.validators.get(&validator) {
            None => {
                return Err(StakingError::InvalidValidator);
            },
            Some(validator_info) => {
                if !validator_info.is_active {
                    return Err(StakingError::InvalidValidator);
                }
            },
        }
        let available = balance_check(&who);
        self.stake_with_balance(who, amount, validator, available)
    }

    /// The error that taking a stake back meets, if any. In this order: the
    /// account has no stake; the stake is still locked; the validator's
    /// total or number of nominators, or the total staked, is smaller than
    /// what the stake would take from it.
    pub open spec fn unstake_check(&self, who: AccountOf<T>) -> Option<StakingError> {
        if !self.stakes@.contains_key(who) {
            Some(StakingError::NotStaked)
        } else {
            let stake = self.stakes@[who];
            let validator = stake.validator@;
            if self.current_block.value() < stake.stake_block.value()
                + self.unstaking_period.value() {
                Some(StakingError::UnstakingPeriodNotMet)
            } else if self.validators@.contains_key(validator) && (
            self.validators@[validator].total_stake.value() < stake.staked_amount.value()
                || self.validators@[validator].nominators_count == 0) {
                Some(StakingError::RewardCalculationError)
            } else if self.total_staked.value() < stake.staked_amount.value() {
                Some(StakingError::RewardCalculationError)
            } else {
                None
            }
        }
    }

    /// How taking a stake back changes the module: nothing where it meets an
    /// error; else the stake is gone, the totals of its validator, where
    /// that is still registered, and the total staked shrink, and the log
    /// gains `Unstaked`.
    pub open spec fn unstaked(&self, post: &Self, who: AccountOf<T>) -> bool {
        match self.unstake_check(who) {
            Some(_) => *post == *self,
            None => {
                let stake = self.stakes@[who];
                let validator = stake.validator@;
                &&& self.same_settings(post)
                &&& post.stakes@ == self.stakes@.remove(who)
                &&& if self.validators@.contains_key(validator) {
                    &&& post.validators@ == self.validators@.insert(
                        validator,
                        post.validators@[validator],
                    )
                    &&& post.validators@[validator]@ == (ValidatorModel {
                        total_stake: (self.validators@[validator].total_stake.value()
                            - stake.staked_amount.value()) as nat,
                        nominators_count: (self.validators@[validator].nominators_count
                            - 1) as u32,
                        ..self.validators@[validator]@
                    })
                } else {
                    post.validators@ == self.validators@
                }
                &&& post.total_staked.value() == self.total_staked.value()
                    - stake.staked_amount.value()
                &&& self.sums_grown(post, validator, -(stake.staked_amount.value() as int), -1)
                &&& post.event_log() == self.event_log().push(
                    EventModel::Unstaked { who, amount: stake.staked_amount.value() },
                )
            },
        }
    }

    /// Takes the stake of `who` back and returns the amount freed. Crediting
    /// it to the staker's balance is the caller's part.
    pub fn unstake(&mut self, who: T::AccountId) -> (r: std::result::Result<
        T::Balance,
        StakingError,
    >)
        ensures
            r == (match old(self).unstake_check(who@) {
                Some(e) => Err(e),
                None => Ok(old(self).stakes@[who@].staked_amount),
            }),
            old(self).unstaked(final(self), who@),
            old(self).totals_consistent() ==> final(self).totals_consistent(),
    {
        let (staked_amount, validator, stake_block) = match self.stakes.get(&who) {
            None => {
                return Err(StakingError::NotStaked);
            },
            Some(stake_info) => (
                stake_info.staked_amount,
                stake_info.validator.duplicate(),
                stake_info.stake_block,
            ),
        };
        proof {
            self.current_block.value_in_range();
        }
        let locked = match stake_block.to_wide().checked_add(self.unstaking_period.to_wide()) {
            Some(until) => self.current_block.to_wide() < until,
            None => true,
        };
        if locked {
            return Err(StakingError::UnstakingPeriodNotMet);
        }
        let new_info = match self.validators.get(&validator) {
            None => None,
            Some(validator_info) => {
                let new_total = match difference_of(&validator_info.total_stake, &staked_amount) {
                    Some(t) => t,
                    None => {
                        return Err(StakingError::RewardCalculationError);
                    },
                };
                if validator_info.nominators_count == 0 {
                    return Err(StakingError::RewardCalculationError);
                }
                Some(
                    ValidatorInfo::<T> {
                        total_stake: new_total,
                        commission_rate: validator_info.commission_rate,
                        is_active: validator_info.is_active,
                        nominators_count: validator_info.nominators_count - 1,
                        blocks_produced: validator_info.blocks_produced,
                    },
                )
            },
        };
        let new_total_staked = match difference_of(&self.total_staked, &staked_amount) {
            Some(t) => t,
            None => {
                return Err(StakingError::RewardCalculationError);
            },
        };
        match new_info {
            Some(info) => {
                self.validators.insert(validator, info);
            },
            None => {},
        }
        self.stakes.remove(&who);
        self.total_staked = new_total_staked;
        let event = StakingEvent::Unstaked { who, amount: staked_amount };
        self.events.push(event);
        proof {
            staked_amount.value_names_the_scalar();
            old(self).stakes@[who@].staked_amount.value_names_the_scalar();
            assert(self.event_log() =~= old(self).event_log().push(event@));
        }
        Ok(staked_amount)
    }
}

/// The reward before commission: the amount staked times the rate times
/// the blocks since the last claim, in thousandths.
pub open spec fn base_reward(staked: nat, rate: nat, blocks: nat) -> nat {
    staked * rate * blocks / 1000
}

/// The reward after the validator has kept its commission, in percent of
/// the reward before commission.
pub open spec fn net_reward(base: nat, commission_rate: nat) -> nat {
    if base * commission_rate / 100 >= base {
        0
    } else {
        (base - base * commission_rate / 100) as nat
    }
}

/// Computes a reward in 128 bits: `None` where the product of the amount,
/// the rate and the blocks exceeds 128 bits.
pub fn reward(staked: u128, rate: u128, blocks: u128, commission_rate: u8) -> (r: Option<u128>)
    ensures
        r == (if staked * rate * blocks > u128::MAX {
            None
        } else {
            Some(
                net_reward(
                    base_reward(staked as nat, rate as nat, blocks as nat),
                    commission_rate as nat,
                ) as u128,
            )
        }),
        r is Some ==> r->0 == net_reward(
            base_reward(staked as nat, rate as nat, blocks as nat),
            commission_rate as nat,
        ),
{
    let product = if staked == 0 || rate == 0 || blocks == 0 {
        assert(staked * rate * blocks == 0) by (nonlinear_arith)
            requires
                staked == 0 || rate == 0 || blocks == 0,
        ;
        0u128
    } else {
        let first = match staked.checked_mul(rate) {
            Some(p) => p,
            None => {
                assert(staked * rate * blocks > u128::MAX) by (nonlinear_arith)
                    requires
                        staked * rate > u128::MAX,
                        blocks >= 1,
                ;
                return None;
            },
        };
        match first.checked_mul(blocks) {
            Some(p) => p,
            None => {
                return None;
            },
        }
    };
    let base = product / 1000;
    assert(base * commission_rate <= u128::MAX) by (nonlinear_arith)
        requires
            base <= u128::MAX / 1000,
            commission_rate <= 255,
    ;
    let share = base * (commission_rate as u128) / 100;
    if share >= base {
        Some(0)
    } else {
        Some(base - share)
    }
}

impl<T: Config> Pallet<T> {
    /// The number of blocks since rewards were last paid on `stake`.
    pub open spec fn blocks_due(&self, stake: StakeInfo<T>) -> nat {
        if self.current_block.value() > stake.last_reward_block.value() {
            (self.current_block.value() - stake.last_reward_block.value()) as nat
        } else {
            0
        }
    }

    /// The reward that `stake` has earned since rewards were last paid on
    /// it, or why there is none: its validator has left the registry, or the
    /// reward is not computable in 128 bits or exceeds the range of
    /// balances.
    pub open spec fn reward_due(&self, stake: StakeInfo<T>) -> std::result::Result<
        nat,
        StakingError,
    > {
        if !self.validators@.contains_key(stake.validator@) {
            Err(StakingError::InvalidValidator)
        } else if stake.staked_amount.value() * self.reward_rate.value() * self.blocks_due(stake)
            > u128::MAX {
            Err(StakingError::RewardCalculationError)
        } else {
            let net = net_reward(
                base_reward(
                    stake.staked_amount.value(),
                    self.reward_rate.value(),
                    self.blocks_due(stake),
                ),
                self.validators@[stake.validator@].commission_rate as nat,
            );
            if net > T::Balance::ceiling() {
                Err(StakingError::RewardCalculationError)
            } else {
                Ok(net)
            }
        }
    }

    /// The reward that `who` has earned, or why there is none.
    pub open spec fn reward_of(&self, who: AccountOf<T>) -> std::result::Result<nat, StakingError> {
        if !self.stakes@.contains_key(who) {
            Err(StakingError::NotStaked)
        } else {
            self.reward_due(self.stakes@[who])
        }
    }

    /// The reward that a claim on `stake` pays, or why it pays none: there is
    /// no reward due, or the rewards paid on the stake would exceed the
    /// range of balances.
    pub open spec fn claim_due(&self, stake: StakeInfo<T>) -> std::result::Result<
        nat,
        StakingError,
    > {
        match self.reward_due(stake) {
            Err(e) => Err(e),
            Ok(n) => if stake.total_rewards.value() + n > T::Balance::ceiling() {
                Err(StakingError::RewardCalculationError)
            } else {
                Ok(n)
            },
        }
    }

    /// The reward that a claim of `who` pays, or why it pays none.
    pub open spec fn claim_of(&self, who: AccountOf<T>) -> std::result::Result<nat, StakingError> {
        if !self.stakes@.contains_key(who) {
            Err(StakingError::NotStaked)
        } else {
            self.claim_due(self.stakes@[who])
        }
    }

    /// What `stake` says once a claim on it was tried: where the claim pays,
    /// rewards are paid up to the current block and the reward is added to
    /// the rewards paid; else the stake is as it was.
    pub open spec fn settled(&self, stake: StakeInfo<T>) -> StakeModel<AccountOf<T>> {
        match self.claim_due(stake) {
            Ok(n) => StakeModel {
                last_reward_block: self.current_block.value(),
                total_rewards: stake.total_rewards.value() + n,
                ..stake@
            },
            Err(_) => stake@,
        }
    }

    /// How a claim changes the module: nothing where it pays none; else the
    /// stake is settled and the log gains `RewardsPaid`.
    pub open spec fn claimed(&self, post: &Self, who: AccountOf<T>) -> bool {
        match self.claim_of(who) {
            Err(_) => *post == *self,
            Ok(n) => {
                &&& self.same_settings(post)
                &&& post.validators == self.validators
                &&& post.total_staked == self.total_staked
                &&& post.stakes@ == self.stakes@.insert(who, post.stakes@[who])
                &&& post.stakes@[who]@ == self.settled(self.stakes@[who])
                &&& self.sums_kept(post)
                &&& post.stakes.entries() == self.stakes.entries().update(
                    place_of(self.stakes.entries(), who),
                    (who, post.stakes@[who]),
                )
                &&& post.event_log() == self.event_log().push(
                    EventModel::RewardsPaid { who, amount: n },
                )
            },
        }
    }

    /// The reward that `who` has earned since it was last paid: the amount
    /// staked times the reward rate times the blocks since then, in
    /// thousandths, less the commission of its validator.
    pub fn calculate_rewards(&self, who: &T::AccountId) -> (r: std::result::Result<
        T::Balance,
        StakingError,
    >)
        ensures
            match r {
                Ok(amount) => self.reward_of(who@) == Ok::<nat, StakingError>(amount.value()),
                Err(e) => self.reward_of(who@) == Err::<nat, StakingError>(e),
            },
    {
        let stake_info = match self.stakes.get(who) {
            None => {
                return Err(StakingError::NotStaked);
            },
            Some(s) => s,
        };
        let validator_info = match self.validators.get(&stake_info.validator) {
            None => {
                return Err(StakingError::InvalidValidator);
            },
            Some(v) => v,
        };
        let now = self.current_block.to_wide();
        let last = stake_info.last_reward_block.to_wide();
        let blocks = if now > last {
            now - last
        } else {
            0
        };
        let net = match reward(
            stake_info.staked_amount.to_wide(),
            self.reward_rate.to_wide(),
            blocks,
            validator_info.commission_rate,
        ) {
            Some(n) => n,
            None => {
                return Err(StakingError::RewardCalculationError);
            },
        };
        proof {
            if net <= T::Balance::ceiling() {
                T::Balance::from_value_in_range(net as nat);
            }
        }
        match T::Balance::from_wide(net) {
            Some(amount) => Ok(amount),
            None => Err(StakingError::RewardCalculationError),
        }
    }

    /// Pays `who` the reward it has earned: settles its stake and logs the
    /// payment. Returns the reward; crediting it to the staker's balance is
    /// the caller's part.
    pub fn claim_rewards(&mut self, who: T::AccountId) -> (r: std::result::Result<
        T::Balance,
        StakingError,
    >)
        ensures
            match r {
                Ok(amount) => old(self).claim_of(who@) == Ok::<nat, StakingError>(amount.value()),
                Err(e) => old(self).claim_of(who@) == Err::<nat, StakingError>(e),
            },
            old(self).claimed(final(self), who@),
            old(self).totals_consistent() ==> final(self).totals_consistent(),
    {
        let reward_amount = match self.calculate_rewards(&who) {
            Ok(a) => a,
            Err(e) => {
                return Err(e);
            },
        };
        let new_info = match self.stakes.get(&who) {
            None => {
                return Err(StakingError::NotStaked);
            },
            Some(stake_info) => {
                let new_rewards = match sum_of(&stake_info.total_rewards, &reward_amount) {
                    Some(t) => t,
                    None => {
                        return Err(StakingError::RewardCalculationError);
                    },
                };
                StakeInfo::<T> {
                    staked_amount: stake_info.staked_amount,
                    validator: stake_info.validator.duplicate(),
                    stake_block: stake_info.stake_block,
                    last_reward_block: self.current_block,
                    total_rewards: new_rewards,
                }
            },
        };
        self.stakes.insert(who.duplicate(), new_info);
        let event = StakingEvent::RewardsPaid { who, amount: reward_amount };
        self.events.push(event);
        proof {
            assert(self.event_log() =~= old(self).event_log().push(event@));
        }
        Ok(reward_amount)
    }

    /// The payments that claims on the first `n` of `entries` log, in order.
    pub open spec fn payouts(&self, entries: Seq<(AccountOf<T>, StakeInfo<T>)>, n: int) -> Seq<
        EventModel<AccountOf<T>>,
    >
        decreases n,
    {
        if n <= 0 {
            Seq::empty()
        } else {
            let (who, stake) = entries[n - 1];
            match self.claim_due(stake) {
                Ok(amount) => self.payouts(entries, n - 1).push(
                    EventModel::RewardsPaid { who, amount },
                ),
                Err(_) => self.payouts(entries, n - 1),
            }
        }
    }

    /// The module as it is once it has been told of `block_number`.
    pub open spec fn at_block(&self, block_number: T::BlockNumber) -> Self {
        Pallet { current_block: block_number, ..*self }
    }

    /// How paying every stake changes the module: each stake is settled, in
    /// the order of the accounts, and the log gains the payments made. A
    /// claim that pays none is passed over.
    pub open spec fn distributed(&self, post: &Self) -> bool {
        &&& self.same_settings(post)
        &&& post.validators == self.validators
        &&& post.total_staked == self.total_staked
        &&& post.stakes@.dom() == self.stakes@.dom()
        &&& self.sums_kept(post)
        &&& forall|who: AccountOf<T>| #[trigger]
            self.stakes@.contains_key(who) ==> post.stakes@[who]@ == self.settled(
                self.stakes@[who],
            )
        &&& post.event_log() == self.event_log() + self.payouts(
            self.stakes.entries(),
            self.stakes.entries().len() as int,
        )
    }

    /// Pays every stake the reward it has earned.
    fn distribute_rewards(&mut self)
        ensures
            old(self).distributed(final(self)),
            old(self).totals_consistent() ==> final(self).totals_consistent(),
    {
        let ghost start = *self;
        let ghost first = self.stakes.entries();
        let n = self.stakes.len();
        let mut i: usize = 0;
        proof {
            use_type_invariant(&self.stakes);
            assert(self.event_log() =~= start.event_log() + start.payouts(first, 0));
        }
        while i < n
            invariant
                i <= n,
                start.stakes.wf(),
                n == first.len(),
                first == start.stakes.entries(),
                self.stakes.entries().len() == n,
                start.same_settings(self),
                self.validators == start.validators,
                self.total_staked == start.total_staked,
                forall|j: int| 0 <= j < n ==> (#[trigger] self.stakes.entries()[j]).0 == first[j].0,
                forall|j: int|
                    0 <= j < i ==> (#[trigger] self.stakes.entries()[j]).1@ == start.settled(
                        first[j].1,
                    ),
                forall|j: int| i <= j < n ==> (#[trigger] self.stakes.entries()[j]).1 == first[j].1,
                self.event_log() == start.event_log() + start.payouts(first, i as int),
                start.sums_kept(self),
            decreases n - i,
        {
            let ghost now = *self;
            let ghost entries = self.stakes.entries();
            let staker = self.stakes.key_at(i).duplicate();
            proof {
                use_type_invariant(&self.stakes);
                self.stakes.lemma_entries();
                lemma_keys_differ::<T::AccountId, StakeInfo<T>>(
                    entries,
                    i as int,
                    place_of(entries, staker@),
                );
                assert(entries[i as int].1 == first[i as int].1);
                assert(now.claim_due(entries[i as int].1) == start.claim_due(first[i as int].1));
            }
            let paid = self.claim_rewards(staker);
            proof {
                let after = self.stakes.entries();
                assert(start.payouts(first, i + 1) == (match start.claim_due(first[i as int].1) {
                    Ok(amount) => start.payouts(first, i as int).push(
                        EventModel::RewardsPaid { who: first[i as int].0, amount },
                    ),
                    Err(_) => start.payouts(first, i as int),
                }));
                if paid is Ok {
                    use_type_invariant(&self.stakes);
                    self.stakes.lemma_entries();
                    assert(after == entries.update(i as int, (staker@, self.stakes@[staker@])));
                    assert(after[i as int].1@ == start.settled(first[i as int].1));
                    assert(self.event_log() =~= start.event_log() + start.payouts(first, i + 1));
                }
            }
            i = i + 1;
        }
        proof {
            use_type_invariant(&self.stakes);
            self.stakes.lemma_entries();
            start.stakes.lemma_entries();
            let last = self.stakes.entries();
            assert forall|who: AccountOf<T>| start.stakes@.contains_key(who) implies (
            #[trigger] self.stakes@.contains_key(who)) && self.stakes@[who]@ == start.settled(
                start.stakes@[who],
            ) by {
                let p = place_of(first, who);
                assert(last[p].0 == who);
            }
            assert forall|who: AccountOf<T>| self.stakes@.contains_key(who) implies (
            #[trigger] start.stakes@.contains_key(who)) by {
                let p = place_of(last, who);
                assert(first[p].0 == who);
            }
            assert(self.stakes@.dom() =~= start.stakes@.dom());
        }
    }

    /// Tells the module of a new block and pays every stake the reward it
    /// has earned up to that block.
    pub fn on_block(&mut self, block_number: T::BlockNumber)
        ensures
            final(self).current_block == block_number,
            old(self).at_block(block_number).distributed(final(self)),
            old(self).totals_consistent() ==> final(self).totals_consistent(),
    {
        self.current_block = block_number;
        self.distribute_rewards();
    }
}

/// The active validators among the first `n` of `entries`, in order.
pub open spec fn active_among<T: Config>(
    entries: Seq<(AccountOf<T>, ValidatorInfo<T>)>,
    n: int,
) -> Seq<(AccountOf<T>, ValidatorInfo<T>)>
    decreases n,
{
    if n <= 0 {
        Seq::empty()
    } else if entries[n - 1].1.is_active {
        active_among::<T>(entries, n - 1).push(entries[n - 1])
    } else {
        active_among::<T>(entries, n - 1)
    }
}

/// What a list of borrowed registry entries says, in plain values.
pub open spec fn listed<T: Config>(list: Seq<(&T::AccountId, &ValidatorInfo<T>)>) -> Seq<
    (AccountOf<T>, ValidatorInfo<T>),
> {
    Seq::new(list.len(), |k: int| (list[k].0@, *list[k].1))
}

/// A count cut to 32 bits.
pub open spec fn count_word(n: nat) -> u32 {
    (n % 0x1_0000_0000) as u32
}

/// Figures on the state of the staking module.
#[derive(Debug)]
pub struct StakingStats<T: Config> {
    /// The sum of all stakes, as the module keeps it.
    pub total_staked: T::Balance,
    /// The number of registered validators.
    pub total_validators: u32,
    /// The number of active validators.
    pub active_validators: u32,
    /// The number of accounts with a stake.
    pub total_stakers: u32,
    /// The total staked divided by the number of stakers, rounded down; zero
    /// where nobody stakes.
    pub average_stake: T::Balance,
}

impl<T: Config> Pallet<T> {
    /// The active validators with what the registry holds of each, in the
    /// order of the accounts.
    pub open spec fn active_validators(&self) -> Seq<(AccountOf<T>, ValidatorInfo<T>)> {
        active_among::<T>(self.validators.entries(), self.validators.entries().len() as int)
    }

    /// The active validators with what the registry holds of each, in the
    /// order of the accounts.
    pub fn get_active_validators(&self) -> (r: Vec<(&T::AccountId, &ValidatorInfo<T>)>)
        ensures
            listed::<T>(r@) == self.active_validators(),
    {
        let mut list: Vec<(&T::AccountId, &ValidatorInfo<T>)> = Vec::new();
        let n = self.validators.len();
        let mut i: usize = 0;
        proof {
            assert(listed::<T>(list@) =~= active_among::<T>(self.validators.entries(), 0));
        }
        while i < n
            invariant
                i <= n,
                n == self.validators.entries().len(),
                listed::<T>(list@) == active_among::<T>(self.validators.entries(), i as int),
            decreases n - i,
        {
            let info = self.validators.value_at(i);
            if info.is_active {
                let ghost before = list@;
                let key = self.validators.key_at(i);
                list.push((key, info));
                proof {
                    assert(listed::<T>(list@) =~= listed::<T>(before).push((key@, *info)));
                }
            }
            i = i + 1;
        }
        list
    }

    /// Figures on the state of the module, computed from the state as it is.
    pub fn get_staking_stats(&self) -> (r: StakingStats<T>)
        ensures
            r.total_staked == self.total_staked,
            r.total_validators == count_word(self.validators@.len()),
            r.active_validators == count_word(self.active_validators().len()),
            r.total_stakers == count_word(self.stakes@.len()),
            r.average_stake.value() == (if self.stakes@.len() > 0 {
                self.total_staked.value() / self.stakes@.len()
            } else {
                0
            }),
    {
        let total_validators = (self.validators.len() as u64 % 0x1_0000_0000) as u32;
        let active_validators = (self.get_active_validators().len() as u64 % 0x1_0000_0000) as u32;
        let stakers = self.stakes.len();
        let total_stakers = (stakers as u64 % 0x1_0000_0000) as u32;
        let zero = T::Balance::zero();
        let average_stake = if stakers > 0 {
            let share = self.total_staked.to_wide() / (stakers as u128);
            proof {
                self.total_staked.value_in_range();
                assert(share <= self.total_staked.value()) by (nonlinear_arith)
                    requires
                        share == self.total_staked.value() / (stakers as nat),
                        stakers > 0,
                ;
                T::Balance::from_value_in_range(share as nat);
            }
            match T::Balance::from_wide(share) {
                Some(a) => a,
                None => zero,
            }
        } else {
            zero
        };
        StakingStats {
            total_staked: self.total_staked,
            total_validators,
            active_validators,
            total_stakers,
            average_stake,
        }
    }
}

/// The calls that the staking module takes.
pub enum Call<T: Config> {
    /// Register a validator.
    AddValidator {
        /// The validator.
        validator: T::AccountId,
        /// Its commission in percent.
        commission: u8,
    },
    /// Lock a stake of the caller.
    Stake {
        /// The validator to stake with.
        validator: T::AccountId,
        /// The amount to lock.
        amount: T::Balance,
    },
    /// Take the caller's stake back.
    Unstake,
    /// Pay the caller the reward it has earned.
    ClaimRewards,
}

impl<T: Config> Pallet<T> {
    /// How a dispatched call changes the module and ends. A call that meets
    /// an error changes nothing and ends in `Err` with a fixed reason. A
    /// stake cannot be dispatched: the module cannot ask for the caller's
    /// balance.
    pub open spec fn applied(
        &self,
        post: &Self,
        caller: T::AccountId,
        call: Call<T>,
        r: DispatchResult,
    ) -> bool {
        match call {
            Call::AddValidator { validator, commission } => {
                &&& self.validator_added(post, validator@, commission)
                &&& match r {
                    Ok(_) => self.add_validator_check(validator@, commission) is None,
                    Err(m) => self.add_validator_check(validator@, commission) is Some && m@
                        == "Failed to add validator"@,
                }
            },
            Call::Stake { validator, amount } => {
                &&& *post == *self
                &&& r matches Err(m) && m@ == "Staking through dispatch not implemented yet"@
            },
            Call::Unstake => {
                &&& self.unstaked(post, caller@)
                &&& match r {
                    Ok(_) => self.unstake_check(caller@) is None,
                    Err(m) => self.unstake_check(caller@) is Some && m@ == "Failed to unstake"@,
                }
            },
            Call::ClaimRewards => {
                &&& self.claimed(post, caller@)
                &&& match r {
                    Ok(_) => self.claim_of(caller@) is Ok,
                    Err(m) => self.claim_of(caller@) is Err && m@ == "Failed to claim rewards"@,
                }
            },
        }
    }
}

impl<T: Config> Dispatch for Pallet<T> {
    type Caller = T::AccountId;

    type Call = Call<T>;

    /// Executes a call for `caller`.
    fn dispatch(&mut self, caller: Self::Caller, call: Self::Call) -> (r: DispatchResult)
        ensures
            old(self).applied(final(self), caller, call, r),
            old(self).totals_consistent() && (call matches Call::AddValidator { validator, .. }
                ==> old(self).unreferenced(validator@)) ==> final(self).totals_consistent(),
    {
        match call {
            Call::AddValidator { validator, commission } => {
                match self.add_validator(validator, commission) {
                    Result::Done(_) => Ok(()),
                    Result::Failed(_) => Err("Failed to add validator"),
                }
            },
            Call::Stake { validator, amount } => Err(
                "Staking through dispatch not implemented yet",
            ),
            Call::Unstake => {
                match self.unstake(caller) {
                    Ok(_) => Ok(()),
                    Err(_) => Err("Failed to unstake"),
                }
            },
            Call::ClaimRewards => {
                match self.claim_rewards(caller) {
                    Ok(_) => Ok(()),
                    Err(_) => Err("Failed to claim rewards"),
                }
            },
        }
    }
}

/// One step of a sequence of staking operations.
pub enum StakingStep<Id> {
    /// `who`, holding `available`, stakes `amount` with `validator`.
    Stake {
        /// The staking account.
        who: Id,
        /// The amount to lock.
        amount: nat,
        /// The validator to stake with.
        validator: Id,
        /// What the staker holds.
        available: nat,
    },
    /// `who` takes its stake back.
    Unstake {
        /// The account.
        who: Id,
    },
}

impl<T: Config> Pallet<T> {
    /// How one step changes the module, whatever becomes of it.
    pub open spec fn stepped(&self, post: &Self, step: StakingStep<AccountOf<T>>) -> bool {
        match step {
            StakingStep::Stake { who, amount, validator, available } => self.staked(
                post,
                who,
                amount,
                validator,
                available,
            ),
            StakingStep::Unstake { who } => self.unstaked(post, who),
        }
    }
}

/// A stake or an unstake keeps the totals in agreement with the stakes.
pub proof fn step_keeps_totals<T: Config>(
    pre: Pallet<T>,
    post: Pallet<T>,
    step: StakingStep<AccountOf<T>>,
)
    requires
        pre.totals_consistent(),
        pre.stepped(&post, step),
    ensures
        post.totals_consistent(),
{
}

/// After any sequence of stakes and unstakes, whatever became of each, the
/// total staked is the sum of all stakes, and the total and the number of
/// nominators of each registered validator are the sum and the number of
/// the stakes with it, provided they were so at the start.
pub proof fn stakes_keep_totals<T: Config>(
    trace: Seq<Pallet<T>>,
    steps: Seq<StakingStep<AccountOf<T>>>,
)
    requires
        trace.len() == steps.len() + 1,
        trace[0].totals_consistent(),
        forall|i: int|
            0 <= i < steps.len() ==> (#[trigger] trace[i]).stepped(&trace[i + 1], steps[i]),
    ensures
        forall|i: int| 0 <= i < trace.len() ==> (#[trigger] trace[i]).totals_consistent(),
    decreases steps.len(),
{
    if steps.len() > 0 {
        let n = steps.len() as int;
        let shorter = trace.drop_last();
        assert forall|i: int| 0 <= i < n - 1 implies (#[trigger] shorter[i]).stepped(
            &shorter[i + 1],
            steps.drop_last()[i],
        ) by {
            assert(trace[i].stepped(&trace[i + 1], steps[i]));
        }
        stakes_keep_totals::<T>(shorter, steps.drop_last());
        assert(shorter[n - 1].totals_consistent());
        assert(trace[n - 1].stepped(&trace[n], steps[n - 1]));
        step_keeps_totals::<T>(trace[n - 1], trace[n], steps[n - 1]);
        assert forall|i: int| 0 <= i < trace.len() implies (
        #[trigger] trace[i]).totals_consistent() by {
            if i < n {
                assert(shorter[i].totals_consistent());
            }
        }
    }
}

} // verus!
