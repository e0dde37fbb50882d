//! Unsigned 256-bit amounts, held as 32 big-endian bytes.

use vstd::arithmetic::power2::{lemma2_to64, lemma_pow2_adds, pow2};
use vstd::prelude::*;

verus! {

/// The number that a big-endian byte string denotes.
pub open spec fn be_value(bytes: Seq<u8>) -> nat
    decreases bytes.len(),
{
    if bytes.len() == 0 {
        0
    } else {
        be_value(bytes.drop_last()) * 256 + bytes.last() as nat
    }
}

/// A string of `n` bytes denotes a number below `2^(8n)`.
pub proof fn lemma_be_value_bound(bytes: Seq<u8>)
    ensures
        be_value(bytes) < pow2(8 * bytes.len()),
    decreases bytes.len(),
{
    if bytes.len() == 0 {
        lemma2_to64();
    } else {
        let init = bytes.drop_last();
        lemma_be_value_bound(init);
        lemma_pow2_adds(8 * init.len(), 8);
        lemma2_to64();
        assert(8 * init.len() + 8 == 8 * bytes.len());
        assert(be_value(bytes) < (be_value(init) + 1) * 256);
        assert((be_value(init) + 1) * 256 <= pow2(8 * init.len()) * 256) by (nonlinear_arith)
            requires
                be_value(init) + 1 <= pow2(8 * init.len()),
        ;
    }
}

/// Two byte strings of one length that denote the same number are equal.
pub proof fn lemma_be_value_injective(a: Seq<u8>, b: Seq<u8>)
    requires
        a.len() == b.len(),
        be_value(a) == be_value(b),
    ensures
        a == b,
    decreases a.len(),
{
    if a.len() > 0 {
        let x = be_value(a.drop_last());
        let y = be_value(b.drop_last());
        assert(x * 256 + a.last() as nat == y * 256 + b.last() as nat);
        assert(x == y && a.last() == b.last());
        lemma_be_value_injective(a.drop_last(), b.drop_last());
        assert(a =~= a.drop_last().push(a.last()));
        assert(b =~= b.drop_last().push(b.last()));
    } else {
        assert(a =~= b);
    }
}

/// An unsigned 256-bit amount.
#[derive(Clone, Copy, Debug, PartialEq, Eq)]
pub struct Uint256 {
    bytes: [u8; 32],
}

impl View for Uint256 {
    type V = nat;

    /// The number that the amount stands for.
    closed spec fn view(&self) -> nat {
        be_value(self.bytes@)
    }
}

/// `-` of `num256::Uint256`, between `from_be_bytes` and `to_be_bytes` of
/// that type: both byte strings are read as big-endian numbers, and the
/// difference is written back as 32 big-endian bytes. A second operand
/// above the first is left out: there the outside subtraction panics or
/// wraps around, as it was built.
#[verifier::external_body]
fn uint256_sub(a: &[u8; 32], b: &[u8; 32]) -> (r: [u8; 32])
    requires
        be_value(b@) <= be_value(a@),
    ensures
        be_value(r@) == be_value(a@) - be_value(b@),
{
    (num256::Uint256::from_be_bytes(a) - num256::Uint256::from_be_bytes(b)).to_be_bytes()
}

/// `+` of `num256::Uint256`, between `from_be_bytes` and `to_be_bytes` of
/// that type: both byte strings are read as big-endian numbers, and the sum
/// is written back as 32 big-endian bytes. A sum of `2^256` or more is left
/// out: there the outside addition panics or wraps around, as it was
/// built.
#[verifier::external_body]
fn uint256_add(a: &[u8; 32], b: &[u8; 32]) -> (r: [u8; 32])
    requires
        be_value(a@) + be_value(b@) < pow2(256),
    ensures
        be_value(r@) == be_value(a@) + be_value(b@),
{
    (num256::Uint256::from_be_bytes(a) + num256::Uint256::from_be_bytes(b)).to_be_bytes()
}

impl Uint256 {
    /// The first number that no amount can hold: `2^256`.
    pub open spec fn limit() -> nat {
        0x1_0000_0000_0000_0000_0000_0000_0000_0000_0000_0000_0000_0000_0000_0000_0000_0000nat
    }

    /// The bytes of the amount, most significant first.
    pub closed spec fn spec_bytes(&self) -> Seq<u8> {
        self.bytes@
    }

    /// Every amount is below `2^256`, and is the number that its bytes denote.
    pub proof fn lemma_view(&self)
        ensures
            self@ == be_value(self.spec_bytes()),
            self.spec_bytes().len() == 32,
            self@ < Self::limit(),
    {
        lemma_be_value_bound(self.bytes@);
        lemma_limit_is_pow2();
    }

    /// Amounts that stand for the same number are the same amount.
    pub proof fn lemma_view_injective(a: Uint256, b: Uint256)
        requires
            a@ == b@,
        ensures
            a == b,
    {
        lemma_be_value_injective(a.bytes@, b.bytes@);
        assert(a.bytes =~= b.bytes);
    }

    /// The amount held in 32 big-endian bytes.
    pub fn from_be_bytes(bytes: [u8; 32]) -> (r: Uint256)
        ensures
            r@ == be_value(bytes@),
            r.spec_bytes() == bytes@,
    {
        Uint256 { bytes }
    }

    /// The amount as 32 big-endian bytes.
    pub fn to_be_bytes(&self) -> (r: [u8; 32])
        ensures
            r@ == self.spec_bytes(),
            be_value(r@) == self@,
    {
        self.bytes
    }

    /// The amount zero.
    pub fn zero() -> (r: Uint256)
        ensures
            r@ == 0,
    {
        let r = Uint256 { bytes: [0u8; 32] };
        proof {
            lemma_be_value_constant(r.bytes@, 0);
        }
        r
    }

    /// The largest amount, `2^256 - 1`.
    pub fn max_value() -> (r: Uint256)
        ensures
            r@ == Self::limit() - 1,
    {
        let r = Uint256 { bytes: [255u8; 32] };
        proof {
            lemma_be_value_constant(r.bytes@, 255);
            lemma_limit_is_pow2();
        }
        r
    }

    /// Whether `self` is at most `other`.
    pub fn le(&self, other: &Uint256) -> (r: bool)
        ensures
            r == (self@ <= other@),
    {
        let mut less = false;
        let mut same = true;
        let mut i: usize = 0;
        while i < 32
            invariant
                i <= 32,
                less == (be_value(self.bytes@.take(i as int)) < be_value(other.bytes@.take(i as int))),
                same == (be_value(self.bytes@.take(i as int)) == be_value(other.bytes@.take(i as int))),
            decreases 32 - i,
        {
            let x = self.bytes[i];
            let y = other.bytes[i];
            proof {
                let a = self.bytes@;
                let b = other.bytes@;
                assert(a.take(i + 1).drop_last() =~= a.take(i as int));
                assert(b.take(i + 1).drop_last() =~= b.take(i as int));
                assert(a.take(i + 1).last() == x);
                assert(b.take(i + 1).last() == y);
            }
            less = less || (same && x < y);
            same = same && x == y;
            i = i + 1;
        }
        proof {
            assert(self.bytes@.take(32) =~= self.bytes@);
            assert(other.bytes@.take(32) =~= other.bytes@);
        }
        less || same
    }

    /// `self - other`, or `None` where `other` is the larger.
    pub fn checked_sub(&self, other: &Uint256) -> (r: Option<Uint256>)
        ensures
            r is Some <==> other@ <= self@,
            r is Some ==> r.unwrap()@ == self@ - other@,
    {
        if other.le(self) {
            Some(Uint256 { bytes: uint256_sub(&self.bytes, &other.bytes) })
        } else {
            None
        }
    }

    /// `self + other`, or `None` where the sum does not fit in 256 bits.
    pub fn checked_add(&self, other: &Uint256) -> (r: Option<Uint256>)
        ensures
            r is Some <==> self@ + other@ < Self::limit(),
            r is Some ==> r.unwrap()@ == self@ + other@,
    {
        let max = Uint256::max_value();
        proof {
            self.lemma_view();
            lemma_limit_is_pow2();
        }
        let room = uint256_sub(&max.bytes, &self.bytes);
        if other.le(&Uint256 { bytes: room }) {
            Some(Uint256 { bytes: uint256_add(&self.bytes, &other.bytes) })
        } else {
            None
        }
    }
}

impl From<u64> for Uint256 {
    /// The amount that stands for `n`.
    fn from(n: u64) -> (r: Uint256)
        ensures
            r@ == n,
    {
        // quotients[k] is n / 256^k
        let mut quotients = [0u64; 9];
        quotients[0] = n;
        let mut k: usize = 1;
        while k < 9
            invariant
                1 <= k <= 9,
                quotients@[0] == n,
                forall|j: int| 1 <= j < k ==> #[trigger] quotients@[j] == quotients@[j - 1] / 256,
            decreases 9 - k,
        {
            quotients[k] = quotients[k - 1] / 256;
            k = k + 1;
        }
        assert(quotients@[8] == 0);
        let mut bytes = [0u8; 32];
        proof {
            lemma_be_value_constant(bytes@.take(24), 0);
        }
        let mut i: usize = 0;
        while i < 8
            invariant
                i <= 8,
                forall|j: int| 1 <= j < 9 ==> #[trigger] quotients@[j] == quotients@[j - 1] / 256,
                be_value(bytes@.take(24 + i)) == quotients@[8 - i],
            decreases 8 - i,
        {
            let ghost before = bytes@;
            let digit = (quotients[7 - i] % 256) as u8;
            bytes[24 + i] = digit;
            proof {
                let prefix = bytes@.take(24 + i + 1);
                assert(prefix.drop_last() =~= before.take(24 + i));
                assert(prefix.last() == digit);
                assert(quotients@[8 - i] == quotients@[8 - i - 1] / 256);
            }
            i = i + 1;
        }
        proof {
            assert(bytes@.take(32) =~= bytes@);
        }
        let r = Uint256 { bytes };
        proof {
            let chosen = choose|c: Uint256| c@ == n as nat;
            assert(r@ == n as nat);
            Self::lemma_view_injective(r, chosen);
        }
        r
    }
}

impl vstd::std_specs::convert::FromSpecImpl<u64> for Uint256 {
    open spec fn obeys_from_spec() -> bool {
        true
    }

    /// The one amount whose value is `n`.
    open spec fn from_spec(n: u64) -> Uint256 {
        choose|r: Uint256| r@ == n as nat
    }
}

/// The limit of the amounts is `2^256`.
proof fn lemma_limit_is_pow2()
    ensures
        Uint256::limit() == pow2(256),
{
    lemma2_to64();
    lemma_pow2_adds(64, 64);
    lemma_pow2_adds(128, 128);
    let half: nat = 0x1_0000_0000_0000_0000_0000_0000_0000_0000nat;
    assert(pow2(128) == half);
    assert(pow2(256) == half * half);
}

/// A string whose bytes all equal `byte`, for the two bytes of which the
/// value is plain: zeros denote 0, and `n` bytes of 255 denote `2^(8n) - 1`.
proof fn lemma_be_value_constant(bytes: Seq<u8>, byte: u8)
    requires
        forall|i: int| 0 <= i < bytes.len() ==> bytes[i] == byte,
        byte == 0 || byte == 255,
    ensures
        byte == 0 ==> be_value(bytes) == 0,
        byte == 255 ==> be_value(bytes) == pow2(8 * bytes.len()) - 1,
    decreases bytes.len(),
{
    lemma2_to64();
    if bytes.len() > 0 {
        let init = bytes.drop_last();
        lemma_be_value_constant(init, byte);
        lemma_pow2_adds(8 * init.len(), 8);
        assert(8 * init.len() + 8 == 8 * bytes.len());
        assert(pow2(8 * init.len()) * 256 - 256 + 255 == pow2(8 * init.len()) * 256 - 1);
    }
}

} // verus!
