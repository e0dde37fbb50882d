//! The node's own spendable balance.

use crate::error::Error;
use crate::uint256::Uint256;
use vstd::prelude::*;

verus! {

/// Which way a mutation moves the balance.
#[derive(Clone, Copy, Debug, PartialEq, Eq, Structural)]
pub enum Direction {
    /// The balance falls by the amount of a payment.
    Debit,
    /// The balance rises by a withdrawn amount.
    Credit,
}

/// What a mutation makes of a balance, or `None` where it cannot be
/// applied: a debit of more than the balance holds, or a credit that would
/// lift the balance to `2^256` or more.
pub open spec fn mutated(balance: nat, delta: nat, direction: Direction) -> Option<nat> {
    match direction {
        Direction::Debit => if delta <= balance {
            Some((balance - delta) as nat)
        } else {
            None
        },
        Direction::Credit => if balance + delta < Uint256::limit() {
            Some(balance + delta)
        } else {
            None
        },
    }
}

/// The error of a mutation that cannot be applied.
pub open spec fn refusal(direction: Direction) -> Error {
    match direction {
        Direction::Debit => Error::InsufficientBalance,
        Direction::Credit => Error::BalanceOverflow,
    }
}

/// By how much a mutation moves the balance: a debit by `-delta`, a credit
/// by `+delta`.
pub open spec fn signed_delta(mutation: (Direction, nat)) -> int {
    match mutation.0 {
        Direction::Debit => -(mutation.1 as int),
        Direction::Credit => mutation.1 as int,
    }
}

/// The sum of the signed deltas of a sequence of mutations.
pub open spec fn delta_sum(mutations: Seq<(Direction, nat)>) -> int
    decreases mutations.len(),
{
    if mutations.len() == 0 {
        0
    } else {
        delta_sum(mutations.drop_last()) + signed_delta(mutations.last())
    }
}

/// The balance after a sequence of mutations, each applied to what the one
/// before it left, or `None` where one of them cannot be applied.
pub open spec fn mutated_by_all(balance: nat, mutations: Seq<(Direction, nat)>) -> Option<nat>
    decreases mutations.len(),
{
    if mutations.len() == 0 {
        Some(balance)
    } else {
        match mutated_by_all(balance, mutations.drop_last()) {
            Some(b) => mutated(b, mutations.last().1, mutations.last().0),
            None => None,
        }
    }
}

/// The cell that holds the node's balance. Each mutation is one step:
/// it is applied whole, or not at all.
#[derive(Debug, PartialEq, Eq)]
pub struct BalanceStore {
    balance: Uint256,
}

impl View for BalanceStore {
    type V = nat;

    /// The balance.
    closed spec fn view(&self) -> nat {
        self.balance@
    }
}

impl BalanceStore {
    /// A balance is below `2^256`, and two stores with the same balance are
    /// the same store.
    pub proof fn lemma_view(a: BalanceStore, b: BalanceStore)
        ensures
            a@ < Uint256::limit(),
            a@ == b@ ==> a == b,
    {
        a.balance.lemma_view();
        if a@ == b@ {
            Uint256::lemma_view_injective(a.balance, b.balance);
        }
    }

    /// The store that holds `balance`.
    pub fn new(balance: Uint256) -> (r: BalanceStore)
        ensures
            r@ == balance@,
    {
        BalanceStore { balance }
    }

    /// The balance.
    pub fn read(&self) -> (r: Uint256)
        ensures
            r@ == self@,
    {
        self.balance
    }

    /// Moves the balance by `delta` and returns the new balance. Where the
    /// mutation cannot be applied the balance stays as it was.
    pub fn mutate(&mut self, delta: &Uint256, direction: Direction) -> (r: Result<Uint256, Error>)
        ensures
            match mutated(old(self)@, delta@, direction) {
                Some(balance) => {
                    &&& final(self)@ == balance
                    &&& r is Ok
                    &&& r.unwrap()@ == balance
                },
                None => *final(self) == *old(self) && r == Err::<Uint256, Error>(
                    refusal(direction),
                ),
            },
    {
        let moved = match direction {
            Direction::Debit => self.balance.checked_sub(delta),
            Direction::Credit => self.balance.checked_add(delta),
        };
        match moved {
            Some(balance) => {
                self.balance = balance;
                Ok(balance)
            },
            None => match direction {
                Direction::Debit => Err(Error::InsufficientBalance),
                Direction::Credit => Err(Error::BalanceOverflow),
            },
        }
    }
}

/// A balance that every mutation of a sequence could be applied to has
/// moved by the sum of their signed deltas.
pub proof fn lemma_balance_is_sum_of_deltas(balance: nat, mutations: Seq<(Direction, nat)>)
    requires
        mutated_by_all(balance, mutations) is Some,
    ensures
        mutated_by_all(balance, mutations).unwrap() == balance + delta_sum(mutations),
    decreases mutations.len(),
{
    if mutations.len() > 0 {
        lemma_balance_is_sum_of_deltas(balance, mutations.drop_last());
    }
}

/// The sum of the signed deltas does not depend on the order of the
/// mutations.
pub proof fn lemma_delta_sum_any_order(a: Seq<(Direction, nat)>, b: Seq<(Direction, nat)>)
    requires
        a.to_multiset() == b.to_multiset(),
    ensures
        delta_sum(a) == delta_sum(b),
    decreases a.len(),
{
    a.to_multiset_ensures();
    b.to_multiset_ensures();
    if a.len() == 0 {
        assert(b.len() == 0);
    } else {
        let last = a.last();
        assert(a.to_multiset().count(last) > 0) by {
            assert(a.contains(last));
        }
        assert(b.contains(last));
        let k = b.index_of(last);
        let rest = b.remove(k);
        assert(a.drop_last().to_multiset() == rest.to_multiset()) by {
            assert(a =~= a.drop_last().push(last));
            a.drop_last().to_multiset_ensures();
            assert(a.to_multiset() == a.drop_last().to_multiset().insert(last));
            assert(rest.to_multiset() == b.to_multiset().remove(last));
            assert(a.drop_last().to_multiset() =~= a.to_multiset().remove(last));
        }
        lemma_delta_sum_any_order(a.drop_last(), rest);
        lemma_delta_sum_remove(b, k);
    }
}

/// Taking one mutation out of a sequence lowers the sum by its signed
/// delta.
proof fn lemma_delta_sum_remove(mutations: Seq<(Direction, nat)>, k: int)
    requires
        0 <= k < mutations.len(),
    ensures
        delta_sum(mutations) == delta_sum(mutations.remove(k)) + signed_delta(mutations[k]),
    decreases mutations.len(),
{
    if k == mutations.len() - 1 {
        assert(mutations.remove(k) =~= mutations.drop_last());
    } else {
        lemma_delta_sum_remove(mutations.drop_last(), k);
        assert(mutations.remove(k).drop_last() =~= mutations.drop_last().remove(k));
        assert(mutations.remove(k).last() == mutations.last());
    }
}

/// A balance after a sequence of payments and withdrawals that all were
/// applied is the balance before plus the sum of their deltas, in whatever
/// order they came: two orders of the same mutations that both could be
/// applied leave the same balance.
pub proof fn lemma_balance_any_order(
    balance: nat,
    a: Seq<(Direction, nat)>,
    b: Seq<(Direction, nat)>,
)
    requires
        a.to_multiset() == b.to_multiset(),
        mutated_by_all(balance, a) is Some,
        mutated_by_all(balance, b) is Some,
    ensures
        mutated_by_all(balance, a) == mutated_by_all(balance, b),
        mutated_by_all(balance, a).unwrap() == balance + delta_sum(a),
{
    lemma_balance_is_sum_of_deltas(balance, a);
    lemma_balance_is_sum_of_deltas(balance, b);
    lemma_delta_sum_any_order(a, b);
}

} // verus!
