//! The balances module: the ledger of account balances, and transfers that
//! pay a flat fee.

use crate::identity::Identity;
use crate::scalar::{add_within, less_than, sub_within, sum_of, Scalar};
use crate::support::{Dispatch, DispatchResult};
use crate::system::AccountOf;
use crate::table::{map_total, OrderedMap};
use vstd::prelude::*;

verus! {

/// The types of the balances module.
pub trait Config: crate::system::Config {
    /// An amount of tokens.
    type Balance: Scalar;
}

/// Why a balance operation failed.
#[derive(Debug, PartialEq, Eq, Clone, Copy, Structural)]
pub enum BalancesError {
    /// The sender holds less than the amount and the fee together.
    InsufficientBalance,
    /// The payer holds less than the fee.
    InsufficientFunds,
    /// A cost or a fee credit exceeds the range of balances.
    OverflowInCalculation,
    /// The receiver's balance would exceed the range of balances.
    OverflowInTransfer,
    /// The amount is not acceptable.
    InvalidAmount,
}

impl BalancesError {
    /// The sentence that describes the error.
    pub open spec fn message_text(self) -> Seq<char> {
        match self {
            BalancesError::InsufficientBalance => "Insufficient balance"@,
            BalancesError::InsufficientFunds => "Insufficient funds to pay fees"@,
            BalancesError::OverflowInCalculation => "Overflow in clculating transfer costs"@,
            BalancesError::OverflowInTransfer => "Overflow in transfer calculation"@,
            BalancesError::InvalidAmount => "Invalid amount specified"@,
        }
    }

    /// The name of the error.
    pub open spec fn name_text(self) -> Seq<char> {
        match self {
            BalancesError::InsufficientBalance => "InsufficientBalance"@,
            BalancesError::InsufficientFunds => "InsufficientFunds"@,
            BalancesError::OverflowInCalculation => "OverflowInCalculation"@,
            BalancesError::OverflowInTransfer => "OverflowInTransfer"@,
            BalancesError::InvalidAmount => "InvalidAmount"@,
        }
    }

    /// The sentence that describes the error.
    pub fn message(&self) -> (r: &'static str)
        ensures
            r@ == self.message_text(),
    {
        match self {
            BalancesError::InsufficientBalance => "Insufficient balance",
            BalancesError::InsufficientFunds => "Insufficient funds to pay fees",
            BalancesError::OverflowInCalculation => "Overflow in clculating transfer costs",
            BalancesError::OverflowInTransfer => "Overflow in transfer calculation",
            BalancesError::InvalidAmount => "Invalid amount specified",
        }
    }

    /// The name of the error.
    pub fn name(&self) -> (r: &'static str)
        ensures
            r@ == self.name_text(),
    {
        match self {
            BalancesError::InsufficientBalance => "InsufficientBalance",
            BalancesError::InsufficientFunds => "InsufficientFunds",
            BalancesError::OverflowInCalculation => "OverflowInCalculation",
            BalancesError::OverflowInTransfer => "OverflowInTransfer",
            BalancesError::InvalidAmount => "InvalidAmount",
        }
    }
}

/// The weight of a ledger entry in the total: the balance it holds.
pub open spec fn worth<T: Config>() -> spec_fn(AccountOf<T>, T::Balance) -> nat {
    |id: AccountOf<T>, b: T::Balance| b.value()
}

/// The state of the balances module.
#[derive(Debug)]
pub struct Pallet<T: Config> {
    balances: OrderedMap<T::AccountId, T::Balance>,
    base_fee: T::Balance,
    fee_recipient: Option<T::AccountId>,
}

impl<T: Config> Pallet<T> {
    /// The ledger: the balance on record for each account that has one.
    pub closed spec fn ledger(&self) -> Map<AccountOf<T>, T::Balance> {
        self.balances@
    }

    /// The balance of an account; an account without a record holds nothing.
    pub open spec fn balance_of(&self, who: AccountOf<T>) -> nat {
        if self.ledger().contains_key(who) {
            self.ledger()[who].value()
        } else {
            0
        }
    }

    /// The flat fee that each transfer pays.
    pub closed spec fn fee(&self) -> nat {
        self.base_fee.value()
    }

    /// The account that fees are credited to, if any.
    pub closed spec fn recipient(&self) -> Option<AccountOf<T>> {
        match self.fee_recipient {
            Some(a) => Some(a@),
            None => None,
        }
    }

    /// The sum of all balances on the ledger.
    pub open spec fn total(&self) -> nat {
        map_total(self.ledger(), worth::<T>())
    }

    /// The balance of `a` once the amount and the fee have left the sender
    /// and the amount has reached the receiver.
    pub open spec fn after_move(
        &self,
        sender: AccountOf<T>,
        receiver: AccountOf<T>,
        amount: nat,
        a: AccountOf<T>,
    ) -> int {
        self.balance_of(a) - (if a == sender {
            amount + self.fee()
        } else {
            0
        }) + (if a == receiver {
            amount
        } else {
            0
        })
    }

    /// The error that a transfer meets, if any. In this order: the amount and
    /// the fee together exceed the range; the sender holds less than both;
    /// the receiver's balance would exceed the range; the fee recipient's
    /// balance would exceed the range.
    pub open spec fn transfer_check(
        &self,
        sender: AccountOf<T>,
        receiver: AccountOf<T>,
        amount: nat,
    ) -> Option<BalancesError> {
        if amount + self.fee() > T::Balance::ceiling() {
            Some(BalancesError::OverflowInCalculation)
        } else if self.balance_of(sender) < amount + self.fee() {
            Some(BalancesError::InsufficientBalance)
        } else if receiver != sender && self.balance_of(receiver) + amount
            > T::Balance::ceiling() {
            Some(BalancesError::OverflowInTransfer)
        } else if self.recipient() is Some && self.after_move(
            sender,
            receiver,
            amount,
            self.recipient()->0,
        ) + self.fee() > T::Balance::ceiling() {
            Some(BalancesError::OverflowInCalculation)
        } else {
            None
        }
    }

    /// How a transfer changes the module. A transfer that meets an error
    /// changes nothing. Otherwise the sender loses the amount and the fee,
    /// the receiver gains the amount and the fee recipient, if there is one,
    /// gains the fee; every other balance stays. The total stays too, unless
    /// there is no fee recipient: then it falls by the fee.
    pub open spec fn transferred(
        &self,
        post: &Self,
        sender: AccountOf<T>,
        receiver: AccountOf<T>,
        amount: nat,
    ) -> bool {
        &&& post.fee() == self.fee()
        &&& post.recipient() == self.recipient()
        &&& match self.transfer_check(sender, receiver, amount) {
            Some(_) => post.ledger() == self.ledger() && post.total() == self.total(),
            None => {
                &&& forall|a: AccountOf<T>|
                    #[trigger] post.balance_of(a) == self.after_move(sender, receiver, amount, a)
                        + (if self.recipient() == Some(a) {
                        self.fee()
                    } else {
                        0
                    })
                &&& post.total() + (if self.recipient() is None {
                    self.fee()
                } else {
                    0
                }) == self.total()
            },
        }
    }

    /// The error that paying a fee meets, if any.
    spec fn fee_check(&self, who: AccountOf<T>, fee: nat) -> Option<BalancesError> {
        if self.balance_of(who) < fee {
            Some(BalancesError::InsufficientFunds)
        } else if self.recipient() is Some && self.recipient() != Some(who) && self.balance_of(
            self.recipient()->0,
        ) + fee > T::Balance::ceiling() {
            Some(BalancesError::OverflowInCalculation)
        } else {
            None
        }
    }

    /// How paying a fee changes the module: the payer loses the fee and the
    /// fee recipient, if there is one, gains it.
    spec fn fee_paid(&self, post: &Self, who: AccountOf<T>, fee: nat) -> bool {
        &&& post.fee() == self.fee()
        &&& post.recipient() == self.recipient()
        &&& match self.fee_check(who, fee) {
            Some(_) => post.ledger() == self.ledger() && post.total() == self.total(),
            None => {
                &&& forall|a: AccountOf<T>|
                    #[trigger] post.balance_of(a) == self.balance_of(a) - (if a == who {
                        fee
                    } else {
                        0
                    }) + (if self.recipient() == Some(a) {
                        fee
                    } else {
                        0
                    })
                &&& post.total() + (if self.recipient() is None {
                    fee
                } else {
                    0
                }) == self.total()
            },
        }
    }

    /// How overwriting the balance of `who` changes the module.
    pub open spec fn balance_set(
        &self,
        post: &Self,
        who: AccountOf<T>,
        amount: T::Balance,
    ) -> bool {
        &&& post.ledger() == self.ledger().insert(who, amount)
        &&& post.fee() == self.fee()
        &&& post.recipient() == self.recipient()
        &&& post.total() + self.balance_of(who) == self.total() + amount.value()
    }

    /// An empty ledger with no fee and no fee recipient.
    pub fn new() -> (r: Self)
        ensures
            r.ledger() == Map::<AccountOf<T>, T::Balance>::empty(),
            r.fee() == 0,
            r.recipient() is None,
            r.total() == 0,
    {
        Self { balances: OrderedMap::new(), base_fee: T::Balance::zero(), fee_recipient: None }
    }

    /// An empty ledger with the given fee and fee recipient.
    pub fn new_with_fee_config(base_fee: T::Balance, fee_recipient: Option<T::AccountId>) -> (r:
        Self)
        ensures
            r.ledger() == Map::<AccountOf<T>, T::Balance>::empty(),
            r.fee() == base_fee.value(),
            r.recipient() == (match fee_recipient {
                Some(a) => Some(a@),
                None => None,
            }),
            r.total() == 0,
    {
        Self { balances: OrderedMap::new(), base_fee, fee_recipient }
    }

    /// Sets the flat fee.
    pub fn set_transaction_fee(&mut self, fee: T::Balance)
        ensures
            final(self).fee() == fee.value(),
            final(self).ledger() == old(self).ledger(),
            final(self).recipient() == old(self).recipient(),
            final(self).total() == old(self).total(),
    {
        self.base_fee = fee;
    }

    /// The flat fee.
    pub fn get_transaction_fee(&self) -> (r: T::Balance)
        ensures
            r.value() == self.fee(),
    {
        self.base_fee
    }

    /// Sets or clears the account that fees are credited to.
    pub fn set_fee_recipient(&mut self, recipient: Option<T::AccountId>)
        ensures
            final(self).recipient() == (match recipient {
                Some(a) => Some(a@),
                None => None,
            }),
            final(self).fee() == old(self).fee(),
            final(self).ledger() == old(self).ledger(),
            final(self).total() == old(self).total(),
    {
        self.fee_recipient = recipient;
    }

    /// The fee for a transfer of `amount`: the flat fee, whatever the amount.
    fn calculate_fee(&self, amount: T::Balance) -> (r: T::Balance)
        ensures
            r.value() == self.fee(),
    {
        self.base_fee
    }

    /// Takes `fee` from the payer and credits it to the fee recipient, if
    /// there is one. Nothing changes where this meets an error.
    fn handle_fee_payment(&mut self, who: &T::AccountId, fee: T::Balance) -> (r: Result<
        (),
        BalancesError,
    >)
        ensures
            r == (match old(self).fee_check(who@, fee.value()) {
                Some(e) => Err(e),
                None => Ok(()),
            }),
            old(self).fee_paid(final(self), who@, fee.value()),
    {
        let payer_balance = self.balance(who);
        if less_than(&payer_balance, &fee) {
            return Err(BalancesError::InsufficientFunds);
        }
        let new_balance = sub_within(&payer_balance, &fee);
        let credit = match &self.fee_recipient {
            Some(recipient) => {
                if recipient.same(who) {
                    Some((recipient.duplicate(), payer_balance))
                } else {
                    let recipient_balance = self.balance(recipient);
                    match sum_of(&recipient_balance, &fee) {
                        Some(b) => Some((recipient.duplicate(), b)),
                        None => {
                            return Err(BalancesError::OverflowInCalculation);
                        },
                    }
                }
            },
            None => None,
        };
        self.balances.insert(who.duplicate(), new_balance);
        match credit {
            Some((recipient, b)) => {
                self.balances.insert(recipient, b);
            },
            None => {},
        }
        Ok(())
    }

    /// Overwrites the balance of `who`.
    pub fn set_balance(&mut self, who: &T::AccountId, amount: T::Balance)
        ensures
            old(self).balance_set(final(self), who@, amount),
    {
        self.balances.insert(who.duplicate(), amount);
    }

    /// The balance of `who`: zero where the ledger has no record.
    pub fn balance(&self, who: &T::AccountId) -> (r: T::Balance)
        ensures
            r.value() == self.balance_of(who@),
            r.value() <= T::Balance::ceiling(),
    {
        let r = match self.balances.get(who) {
            Some(b) => *b,
            None => T::Balance::zero(),
        };
        proof {
            r.value_in_range();
        }
        r
    }

    /// What a transfer of `amount` costs the sender: the amount and the fee.
    pub fn get_transfer_cost(&self, amount: T::Balance) -> (r: Result<T::Balance, BalancesError>)
        ensures
            match r {
                Ok(cost) => cost.value() == amount.value() + self.fee(),
                Err(e) => e == BalancesError::OverflowInCalculation && amount.value() + self.fee()
                    > T::Balance::ceiling(),
            },
    {
        let fee = self.calculate_fee(amount);
        match sum_of(&amount, &fee) {
            Some(cost) => Ok(cost),
            None => Err(BalancesError::OverflowInCalculation),
        }
    }

    /// Moves `amount` from `sender` to `receiver` and has the sender pay the
    /// fee. Everything is checked before the ledger is touched.
    pub fn transfer(
        &mut self,
        sender: T::AccountId,
        receiver: T::AccountId,
        amount: T::Balance,
    ) -> (r: Result<(), BalancesError>)
        ensures
            r == (match old(self).transfer_check(sender@, receiver@, amount.value()) {
                Some(e) => Err(e),
                None => Ok(()),
            }),
            old(self).transferred(final(self), sender@, receiver@, amount.value()),
    {
        let fee = self.calculate_fee(amount);
        let sender_balance = self.balance(&sender);
        let receiver_balance = self.balance(&receiver);
        let total_needed = match sum_of(&amount, &fee) {
            Some(t) => t,
            None => {
                return Err(BalancesError::OverflowInCalculation);
            },
        };
        if less_than(&sender_balance, &total_needed) {
            return Err(BalancesError::InsufficientBalance);
        }
        let to_self = sender.same(&receiver);
        if !to_self {
            if sum_of(&receiver_balance, &amount).is_none() {
                return Err(BalancesError::OverflowInTransfer);
            }
        }
        let fee_fits = match &self.fee_recipient {
            Some(recipient) => {
                if recipient.same(&sender) {
                    true
                } else if recipient.same(&receiver) {
                    let credited = add_within(&receiver_balance, &amount);
                    sum_of(&credited, &fee).is_some()
                } else {
                    let recipient_balance = self.balance(recipient);
                    sum_of(&recipient_balance, &fee).is_some()
                }
            },
            None => true,
        };
        if !fee_fits {
            return Err(BalancesError::OverflowInCalculation);
        }
        let ghost before = *self;
        let new_sender_balance = sub_within(&sender_balance, &amount);
        self.balances.insert(sender.duplicate(), new_sender_balance);
        let held = self.balance(&receiver);
        let new_receiver_balance = add_within(&held, &amount);
        self.balances.insert(receiver, new_receiver_balance);
        let ghost moved = *self;
        assert(forall|a: AccountOf<T>| #[trigger]
            moved.balance_of(a) == before.after_move(sender@, receiver@, amount.value(), a)
                + (if a == sender@ {
                fee.value()
            } else {
                0
            }));
        assert(moved.total() == before.total());
        assert(moved.fee_check(sender@, fee.value()) is None);
        self.handle_fee_payment(&sender, fee)
    }
}

/// The calls that the balances module takes.
pub enum Call<T: Config> {
    /// Move `amount` from the caller to `to`.
    Transfer {
        /// The receiver.
        to: T::AccountId,
        /// The amount to move.
        amount: T::Balance,
    },
}

impl<T: Config> Pallet<T> {
    /// How a dispatched call changes the module and ends: a transfer from
    /// the caller, which ends in `Err("Transfer failed")` where it meets an
    /// error.
    pub open spec fn applied(
        &self,
        post: &Self,
        caller: T::AccountId,
        call: Call<T>,
        r: DispatchResult,
    ) -> bool {
        match call {
            Call::Transfer { to, amount } => {
                &&& self.transferred(post, caller@, to@, amount.value())
                &&& match r {
                    Ok(_) => self.transfer_check(caller@, to@, amount.value()) is None,
                    Err(m) => self.transfer_check(caller@, to@, amount.value()) is Some && m@
                        == "Transfer failed"@,
                }
            },
        }
    }
}

impl<T: Config> Dispatch for Pallet<T> {
    type Caller = T::AccountId;

    type Call = Call<T>;

    /// Executes a call for `caller`.
    fn dispatch(&mut self, caller: Self::Caller, call: Self::Call) -> (r: DispatchResult)
        ensures
            old(self).applied(final(self), caller, call, r),
    {
        match call {
            Call::Transfer { to, amount } => {
                match self.transfer(caller, to, amount) {
                    Ok(_) => Ok(()),
                    Err(_) => Err("Transfer failed"),
                }
            },
        }
    }
}

/// One transfer of a sequence: who sends how much to whom.
pub struct Move<Id> {
    /// The sender.
    pub sender: Id,
    /// The receiver.
    pub receiver: Id,
    /// The amount to move.
    pub amount: nat,
}

/// How many of the first `n` transfers meet no error.
pub open spec fn moves_done<T: Config>(
    trace: Seq<Pallet<T>>,
    moves: Seq<Move<AccountOf<T>>>,
    n: int,
) -> nat
    decreases n,
{
    if n <= 0 {
        0
    } else {
        moves_done(trace, moves, n - 1) + (if trace[n - 1].transfer_check(
            moves[n - 1].sender,
            moves[n - 1].receiver,
            moves[n - 1].amount,
        ) is None {
            1nat
        } else {
            0nat
        })
    }
}

/// Conservation up to the `n`th state of a sequence of transfers.
proof fn total_after<T: Config>(trace: Seq<Pallet<T>>, moves: Seq<Move<AccountOf<T>>>, n: int)
    requires
        trace.len() == moves.len() + 1,
        0 <= n <= moves.len(),
        forall|i: int|
            0 <= i < moves.len() ==> (#[trigger] trace[i]).transferred(
                &trace[i + 1],
                moves[i].sender,
                moves[i].receiver,
                moves[i].amount,
            ),
    ensures
        trace[n].fee() == trace[0].fee(),
        trace[n].recipient() == trace[0].recipient(),
        trace[0].recipient() is Some ==> trace[n].total() == trace[0].total(),
        trace[0].recipient() is None ==> trace[n].total() + trace[0].fee() * moves_done(
            trace,
            moves,
            n,
        ) == trace[0].total(),
    decreases n,
{
    if n > 0 {
        total_after(trace, moves, n - 1);
        assert(trace[n - 1].transferred(
            &trace[n],
            moves[n - 1].sender,
            moves[n - 1].receiver,
            moves[n - 1].amount,
        ));
        let fee = trace[0].fee();
        let done = moves_done(trace, moves, n - 1);
        assert(fee * (done + 1) == fee * done + fee) by (nonlinear_arith);
    } else {
        assert(trace[0].fee() * 0 == 0) by (nonlinear_arith);
    }
}

/// Transfers conserve the total. Over any sequence of transfers, whatever
/// becomes of each, the sum of all balances stays the same where fees go to
/// a recipient. Where there is no recipient, the sum falls by one fee for
/// each transfer that went through, and by nothing else.
pub proof fn transfers_conserve_the_total<T: Config>(
    trace: Seq<Pallet<T>>,
    moves: Seq<Move<AccountOf<T>>>,
)
    requires
        trace.len() == moves.len() + 1,
        forall|i: int|
            0 <= i < moves.len() ==> (#[trigger] trace[i]).transferred(
                &trace[i + 1],
                moves[i].sender,
                moves[i].receiver,
                moves[i].amount,
            ),
    ensures
        trace[0].recipient() is Some ==> trace.last().total() == trace[0].total(),
        trace[0].recipient() is None ==> trace.last().total() + trace[0].fee() * moves_done(
            trace,
            moves,
            moves.len() as int,
        ) == trace[0].total(),
{
    total_after(trace, moves, moves.len() as int);
}

} // verus!
