//! The ways in which a command can fail.

use vstd::prelude::*;

verus! {

/// Why a command of the payment controller failed.
#[derive(Clone, Copy, Debug, PartialEq, Eq, Structural)]
pub enum Error {
    /// No counterparty with the address is registered.
    UnknownCounterparty,
    /// The channel manager refused the operation.
    ChannelRejected,
    /// The balance or the counterparty store could not be reached.
    StoreUnavailable,
    /// The round trip to a counterparty failed.
    NetworkFailure,
    /// A payment asked for more than the balance holds.
    InsufficientBalance,
    /// A withdrawal would lift the balance past 256 bits.
    BalanceOverflow,
}

} // verus!
