//! The payment controller: one handler for each command.
//!
//! A handler that needs a channel manager or the network does not call it.
//! It does what can be done before the call and returns the call to make;
//! the function named `..._completed` takes what the call answered.

use crate::address::Address;
use crate::balance::{mutated, BalanceStore, Direction};
use crate::counterparty::{
    counterparties_of, initialized, is_known, ChannelManager, Counterparty, CounterpartyStore,
    Entry,
};
use crate::error::Error;
use crate::identity::PaymentTx;
use crate::uint256::Uint256;
use vstd::prelude::*;

verus! {

/// Command: pay the amount of the transaction to its receiver.
#[derive(Debug)]
pub struct MakePayment(pub PaymentTx);

impl Clone for MakePayment {
    fn clone(&self) -> (r: MakePayment)
        ensures
            r == *self,
    {
        MakePayment(self.0.clone())
    }
}

/// Command: start one round of reconciliation with every counterparty.
#[derive(Clone, Copy, Debug)]
pub struct Tick;

/// Command: register a counterparty.
#[derive(Debug)]
pub struct Register(pub Counterparty);

impl Clone for Register {
    fn clone(&self) -> (r: Register)
        ensures
            r == *self,
    {
        Register(self.0.clone())
    }
}

/// Command: move what the channel with the counterparty of this address has
/// settled into the balance.
#[derive(Clone, Copy, Debug)]
pub struct Withdraw(pub Address);

/// Command: read the balance.
#[derive(Clone, Copy, Debug)]
pub struct GetOwnBalance;

/// The call to make on the channel manager of `counterparty` for a payment:
/// pay `amount`.
#[derive(Clone, Copy, Debug, PartialEq, Eq)]
pub struct PayCall {
    pub counterparty: Address,
    pub amount: Uint256,
}

/// The call to make on the channel manager of `counterparty` for a
/// withdrawal: give out what has been settled.
#[derive(Clone, Copy, Debug, PartialEq, Eq)]
pub struct WithdrawCall {
    pub counterparty: Address,
}

/// How a line of the log is ranked.
#[derive(Clone, Copy, Debug, PartialEq, Eq, Structural)]
pub enum LogLevel {
    Info,
    Error,
}

/// What is logged of one reconciliation: with whom, and how it ended.
#[derive(Debug, PartialEq, Eq)]
pub struct TickReport {
    pub level: LogLevel,
    pub counterparty: Address,
    pub failure: Option<Error>,
}

/// What the first step of a payment leaves in the balance: the amount is
/// taken out as soon as the balance covers it, before the receiver is
/// looked up and before its channel manager is asked.
pub open spec fn balance_after_payment(balance: nat, tx: PaymentTx) -> nat {
    match mutated(balance, tx.amount@, Direction::Debit) {
        Some(debited) => debited,
        None => balance,
    }
}

/// What the first step of a payment returns: the call to make, or why none
/// is made.
pub open spec fn payment_started<C>(balance: nat, entries: Seq<Entry<C>>, tx: PaymentTx) -> Result<
    PayCall,
    Error,
> {
    if tx.amount@ > balance {
        Err(Error::InsufficientBalance)
    } else if !is_known(entries, tx.to.eth_address) {
        Err(Error::UnknownCounterparty)
    } else {
        Ok(PayCall { counterparty: tx.to.eth_address, amount: tx.amount })
    }
}

/// What the first step of a withdrawal returns.
pub open spec fn withdrawal_started<C>(entries: Seq<Entry<C>>, address: Address) -> Result<
    WithdrawCall,
    Error,
> {
    if is_known(entries, address) {
        Ok(WithdrawCall { counterparty: address })
    } else {
        Err(Error::UnknownCounterparty)
    }
}

/// What a withdrawal leaves in the balance, given the channel manager's
/// answer: a withdrawn amount is added where the sum fits, and nothing
/// else changes the balance.
pub open spec fn balance_after_withdrawal(balance: nat, reply: Result<Uint256, Error>) -> nat {
    match reply {
        Ok(amount) => match mutated(balance, amount@, Direction::Credit) {
            Some(credited) => credited,
            None => balance,
        },
        Err(_) => balance,
    }
}

/// What a withdrawal returns, given the channel manager's answer: the
/// withdrawn amount once it is added to the balance, the channel manager's
/// error as it came, or `BalanceOverflow` where the sum does not fit.
pub open spec fn withdrawal_completed(balance: nat, reply: Result<Uint256, Error>) -> Result<
    Uint256,
    Error,
> {
    match reply {
        Ok(amount) => if balance + amount@ < Uint256::limit() {
            Ok(amount)
        } else {
            Err(Error::BalanceOverflow)
        },
        Err(e) => Err(e),
    }
}

/// What is logged of a reconciliation with the counterparty of `address`
/// that ended in `reply`.
pub open spec fn tick_report(address: Address, reply: Result<(), Error>) -> TickReport {
    match reply {
        Ok(_) => TickReport { level: LogLevel::Info, counterparty: address, failure: None },
        Err(e) => TickReport { level: LogLevel::Error, counterparty: address, failure: Some(e) },
    }
}

/// The coordinator of payments. It has no state of its own: the balance and
/// the counterparties live in the two stores that each handler is given.
pub struct PaymentController {}

impl Default for PaymentController {
    fn default() -> (r: PaymentController)
        ensures
            r == (PaymentController {  }),
    {
        PaymentController {  }
    }
}

impl PaymentController {
    /// First step of `MakePayment`: takes the amount out of the balance,
    /// then looks up the receiver and returns the call for its channel
    /// manager. A payment of more than the balance holds changes nothing.
    /// An amount that was taken out stays out, whether the receiver is
    /// known or not and whatever the channel manager answers.
    pub fn make_payment<C>(
        &self,
        msg: MakePayment,
        balance: &mut BalanceStore,
        storage: &mut CounterpartyStore<C>,
    ) -> (r: Result<PayCall, Error>)
        requires
            old(storage).wf(),
        ensures
            final(storage).wf(),
            final(storage)@ == old(storage)@,
            final(balance)@ == balance_after_payment(old(balance)@, msg.0),
            r == payment_started(old(balance)@, old(storage)@, msg.0),
            msg.0.amount@ <= old(balance)@ ==> final(balance)@ == old(balance)@ - msg.0.amount@,
    {
        let tx = msg.0;
        match balance.mutate(&tx.amount, Direction::Debit) {
            Err(e) => Err(e),
            Ok(_) => match storage.get_channel(&tx.to.eth_address) {
                Err(e) => Err(e),
                Ok(_) => Ok(PayCall { counterparty: tx.to.eth_address, amount: tx.amount }),
            },
        }
    }

    /// Second step of `MakePayment`: the channel manager's answer to the
    /// call is the result of the command, as it came. Nothing is tried
    /// again, and the balance is not touched.
    pub fn payment_completed(&self, reply: Result<(), Error>) -> (r: Result<(), Error>)
        ensures
            r == reply,
    {
        reply
    }

    /// `Tick`: the counterparties to reconcile with, each registered one
    /// once. All of them are handed out together and before any of the
    /// reconciliations has run, so that none can wait for another or fail
    /// the command.
    pub fn tick<C>(&self, msg: Tick, storage: &CounterpartyStore<C>) -> (r: Result<
        Vec<Counterparty>,
        Error,
    >)
        ensures
            r is Ok,
            r.unwrap()@ == counterparties_of(storage@),
            r.unwrap()@.len() == storage@.len(),
    {
        Ok(storage.get_all_counterparties())
    }

    /// What remains of one reconciliation when it has ended: a line for the
    /// log. A failure is reported there and goes no further.
    pub fn tick_completed(&self, counterparty: &Counterparty, reply: Result<(), Error>) -> (r:
        TickReport)
        ensures
            r == tick_report(counterparty.address, reply),
    {
        match reply {
            Ok(_) => TickReport {
                level: LogLevel::Info,
                counterparty: counterparty.address,
                failure: None,
            },
            Err(e) => TickReport {
                level: LogLevel::Error,
                counterparty: counterparty.address,
                failure: Some(e),
            },
        }
    }

    /// `Register`: hands the counterparty to the store, with a channel
    /// manager in its first state, `New`. Whether the address is new is for
    /// the store to say: one that is registered already keeps its entry.
    pub fn register<C>(&self, msg: Register, storage: &mut CounterpartyStore<C>) -> (r: Result<
        (),
        Error,
    >)
        requires
            old(storage).wf(),
        ensures
            final(storage).wf(),
            final(storage)@ == initialized(old(storage)@, msg.0, ChannelManager::New),
            r is Ok,
    {
        storage.init_data(msg.0, ChannelManager::New);
        Ok(())
    }

    /// First step of `Withdraw`: looks up the counterparty and returns the
    /// call for its channel manager.
    pub fn withdraw<C>(&self, msg: Withdraw, storage: &mut CounterpartyStore<C>) -> (r: Result<
        WithdrawCall,
        Error,
    >)
        requires
            old(storage).wf(),
        ensures
            final(storage).wf(),
            final(storage)@ == old(storage)@,
            r == withdrawal_started(old(storage)@, msg.0),
    {
        match storage.get_channel(&msg.0) {
            Err(e) => Err(e),
            Ok(_) => Ok(WithdrawCall { counterparty: msg.0 }),
        }
    }

    /// Second step of `Withdraw`: adds what the channel manager gave out to
    /// the balance and returns it. A withdrawal of zero is a success that
    /// leaves the balance as it was. An error of the channel manager is
    /// returned as it came.
    pub fn withdraw_completed(
        &self,
        reply: Result<Uint256, Error>,
        balance: &mut BalanceStore,
    ) -> (r: Result<Uint256, Error>)
        ensures
            final(balance)@ == balance_after_withdrawal(old(balance)@, reply),
            r == withdrawal_completed(old(balance)@, reply),
            reply matches Ok(amount) && amount@ == 0 ==> *final(balance) == *old(balance) && r
                == reply,
            !(r is Ok) ==> *final(balance) == *old(balance),
    {
        proof {
            BalanceStore::lemma_view(*balance, *balance);
        }
        match reply {
            Err(e) => Err(e),
            Ok(amount) => match balance.mutate(&amount, Direction::Credit) {
                Err(e) => Err(e),
                Ok(_) => {
                    proof {
                        BalanceStore::lemma_view(*balance, *old(balance));
                    }
                    Ok(amount)
                },
            },
        }
    }

    /// `GetOwnBalance`: the balance, read without any effect.
    pub fn get_own_balance(&self, msg: GetOwnBalance, balance: &BalanceStore) -> (r: Result<
        Uint256,
        Error,
    >)
        ensures
            r is Ok,
            r.unwrap()@ == balance@,
    {
        Ok(balance.read())
    }
}

/// A payment that the balance covers leaves the balance lower by exactly
/// its amount, and where its receiver is registered the channel manager is
/// asked to pay that amount to the receiver. The channel manager's
/// acceptance then ends the command without another change.
pub proof fn lemma_covered_payment<C>(balance: nat, entries: Seq<Entry<C>>, tx: PaymentTx)
    requires
        tx.amount@ <= balance,
    ensures
        balance_after_payment(balance, tx) == balance - tx.amount@,
        is_known(entries, tx.to.eth_address) ==> payment_started(balance, entries, tx) == Ok::<
            PayCall,
            Error,
        >(PayCall { counterparty: tx.to.eth_address, amount: tx.amount }),
{
}

/// A payment that the balance does not cover fails and leaves the balance
/// as it was.
pub proof fn lemma_uncovered_payment<C>(balance: nat, entries: Seq<Entry<C>>, tx: PaymentTx)
    requires
        tx.amount@ > balance,
    ensures
        balance_after_payment(balance, tx) == balance,
        payment_started(balance, entries, tx) == Err::<PayCall, Error>(
            Error::InsufficientBalance,
        ),
{
}

/// A withdrawal of zero succeeds with the amount zero and leaves the
/// balance as it was.
pub proof fn lemma_zero_withdrawal(balance: nat, amount: Uint256)
    requires
        balance < Uint256::limit(),
        amount@ == 0,
    ensures
        balance_after_withdrawal(balance, Ok(amount)) == balance,
        withdrawal_completed(balance, Ok(amount)) == Ok::<Uint256, Error>(amount),
{
}

/// What is logged of the reconciliations of one tick, each with its own
/// outcome.
pub open spec fn tick_reports(
    counterparties: Seq<Counterparty>,
    replies: Seq<Result<(), Error>>,
) -> Seq<TickReport> {
    Seq::new(counterparties.len(), |i: int| tick_report(counterparties[i].address, replies[i]))
}

/// What becomes of the reconciliation with one counterparty depends on its
/// own outcome alone: whichever of the others fail, its line of the log is
/// the same.
pub proof fn lemma_tick_failure_is_isolated(
    counterparties: Seq<Counterparty>,
    replies: Seq<Result<(), Error>>,
    others_fail: Seq<Result<(), Error>>,
    j: int,
)
    requires
        0 <= j < counterparties.len(),
        replies[j] == others_fail[j],
    ensures
        tick_reports(counterparties, replies)[j] == tick_reports(counterparties, others_fail)[j],
        tick_reports(counterparties, replies).len() == counterparties.len(),
{
}

} // verus!
