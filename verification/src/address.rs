//! Addresses of nodes: twenty bytes, compared byte by byte.

use vstd::prelude::*;

verus! {

/// The address by which a node is known to its counterparties.
#[derive(Clone, Copy, Debug, Hash)]
pub struct Address {
    bytes: [u8; 20],
}

impl View for Address {
    type V = Seq<u8>;

    /// The twenty bytes of the address.
    closed spec fn view(&self) -> Seq<u8> {
        self.bytes@
    }
}

impl PartialEq for Address {
    fn eq(&self, other: &Address) -> (r: bool) {
        let mut i: usize = 0;
        while i < 20
            invariant
                i <= 20,
                forall|j: int| 0 <= j < i ==> self.bytes@[j] == other.bytes@[j],
            decreases 20 - i,
        {
            if self.bytes[i] != other.bytes[i] {
                return false;
            }
            i = i + 1;
        }
        assert(self.bytes =~= other.bytes);
        true
    }
}

impl vstd::std_specs::cmp::PartialEqSpecImpl for Address {
    open spec fn obeys_eq_spec() -> bool {
        true
    }

    open spec fn eq_spec(&self, other: &Address) -> bool {
        *self == *other
    }
}

impl Eq for Address {}

impl Address {
    /// An address has twenty bytes, and two addresses with the same bytes
    /// are the same address.
    pub proof fn lemma_view(a: Address, b: Address)
        ensures
            a@.len() == 20,
            a@ == b@ ==> a == b,
    {
        if a@ == b@ {
            assert(a.bytes =~= b.bytes);
        }
    }

    /// The address with the given bytes.
    pub fn from_bytes(bytes: [u8; 20]) -> (r: Address)
        ensures
            r@ == bytes@,
    {
        Address { bytes }
    }

    /// The bytes of the address.
    pub fn to_bytes(&self) -> (r: [u8; 20])
        ensures
            r@ == self@,
    {
        self.bytes
    }
}

/// The byte whose two hexadecimal digits are the two decimal digits of `x`.
pub open spec fn decimal_digits_as_hex(x: u64) -> u8
    recommends
        x < 100,
{
    (16 * (x / 10) + x % 10) as u8
}

/// The address whose twenty bytes all are the byte of `x`.
pub open spec fn spec_new_addr(x: u64) -> Address
    recommends
        x < 100,
{
    choose|a: Address| a@ == Seq::new(20, |i: int| decimal_digits_as_hex(x))
}

/// The address that is written `0x` and then twenty times the two decimal
/// digits of `x`: each of its bytes has those two digits as its
/// hexadecimal digits. Only numbers below 100 have two decimal digits.
pub fn new_addr(x: u64) -> (r: Address)
    requires
        x < 100,
    ensures
        r@ == Seq::new(20, |i: int| decimal_digits_as_hex(x)),
        r == spec_new_addr(x),
{
    let byte = (16 * (x / 10) + x % 10) as u8;
    let r = Address { bytes: [byte; 20] };
    proof {
        assert(r@ =~= Seq::new(20, |i: int| decimal_digits_as_hex(x)));
        Address::lemma_view(r, spec_new_addr(x));
    }
    r
}

} // verus!
