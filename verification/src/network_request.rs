//! The envelope that tags an outgoing request with its sender.

use crate::address::Address;
use crate::identity::Identity;
use vstd::prelude::*;

verus! {

/// A request together with the address of the node that sends it. The
/// address is a plain tag: nothing here proves that the sender owns it, so
/// a receiver has to authenticate the sender by other means.
#[derive(Debug, PartialEq, Eq)]
pub struct NetworkRequest<T> {
    pub from_addr: Address,
    pub data: T,
}

impl<T: Clone> Clone for NetworkRequest<T> {
    fn clone(&self) -> (r: NetworkRequest<T>)
        ensures
            r.from_addr == self.from_addr,
            call_ensures(T::clone, (&self.data,), r.data),
    {
        NetworkRequest { from_addr: self.from_addr, data: self.data.clone() }
    }
}

impl<T> NetworkRequest<T> {
    /// Wraps `data` for sending by the node `own`: the envelope carries the
    /// address of `own` and the data as it was given.
    pub fn wrap(own: &Identity, data: T) -> (r: NetworkRequest<T>)
        ensures
            r.from_addr == own.eth_address,
            r.data == data,
    {
        NetworkRequest { from_addr: own.eth_address, data }
    }
}

} // verus!
