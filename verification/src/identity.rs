//! Who takes part in a payment.

use crate::address::{new_addr, spec_new_addr, Address};
use crate::uint256::Uint256;
use vstd::prelude::*;
use vstd::string::StringExecFns;

verus! {

/// Where a node is reached on the mesh.
#[derive(Clone, Copy, Debug, PartialEq, Eq)]
pub enum MeshIp {
    /// The four bytes of an IPv4 address.
    V4([u8; 4]),
    /// The eight segments of an IPv6 address.
    V6([u16; 8]),
}

/// A node: its address, its place on the mesh and its public channel key.
#[derive(Debug, PartialEq, Eq)]
pub struct Identity {
    pub mesh_ip: MeshIp,
    pub eth_address: Address,
    pub wg_public_key: String,
}

impl Clone for Identity {
    fn clone(&self) -> (r: Identity)
        ensures
            r == *self,
    {
        Identity {
            mesh_ip: self.mesh_ip,
            eth_address: self.eth_address,
            wg_public_key: self.wg_public_key.clone(),
        }
    }
}

/// A payment of `amount` from one node to another.
#[derive(Debug, PartialEq, Eq)]
pub struct PaymentTx {
    pub to: Identity,
    pub from: Identity,
    pub amount: Uint256,
}

impl Clone for PaymentTx {
    fn clone(&self) -> (r: PaymentTx)
        ensures
            r == *self,
    {
        PaymentTx { to: self.to.clone(), from: self.from.clone(), amount: self.amount }
    }
}

/// The identity numbered `x`: the address of that number, the IPv6 address
/// whose eight segments all are `x`, and a key of twenty letters `A`.
pub fn new_identity(x: u64) -> (r: Identity)
    requires
        x < 100,
    ensures
        r.mesh_ip matches MeshIp::V6(segments) && segments@ == Seq::new(8, |i: int| x as u16),
        r.eth_address == spec_new_addr(x),
        r.wg_public_key@ == "AAAAAAAAAAAAAAAAAAAA"@,
{
    let y = x as u16;
    let segments = [y; 8];
    assert(segments@ =~= Seq::new(8, |i: int| x as u16));
    Identity {
        mesh_ip: MeshIp::V6(segments),
        wg_public_key: String::from_str("AAAAAAAAAAAAAAAAAAAA"),
        eth_address: new_addr(x),
    }
}

} // verus!
