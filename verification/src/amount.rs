//! Exact unsigned integers for raw token amounts and running totals.
//!
//! A raw amount is the unscaled 256-bit integer carried by a transfer event.
//! Running totals are kept in the same raw unit, in 320 bits, so that
//! 2^64 amounts of any size can be accumulated without loss; the display
//! value of either is the integer divided by ten to the token's decimals.

use vstd::prelude::*;
use vstd::std_specs::cmp::PartialEqSpecImpl;

verus! {

/// 2^64, the weight of the second limb.
pub open spec fn pow2_64() -> nat {
    0x1_0000_0000_0000_0000nat
}

/// 2^128, the weight of the third limb.
pub open spec fn pow2_128() -> nat {
    0x1_0000_0000_0000_0000_0000_0000_0000_0000nat
}

/// 2^192, the weight of the fourth limb.
pub open spec fn pow2_192() -> nat {
    0x1_0000_0000_0000_0000_0000_0000_0000_0000_0000_0000_0000_0000nat
}

/// 2^256, the weight of the fifth limb and the bound of an `Amount`.
pub open spec fn pow2_256() -> nat {
    0x1_0000_0000_0000_0000_0000_0000_0000_0000_0000_0000_0000_0000_0000_0000_0000_0000nat
}

/// 2^320, the bound of a `Total`.
pub open spec fn pow2_320() -> nat {
    0x1_0000_0000_0000_0000_0000_0000_0000_0000_0000_0000_0000_0000_0000_0000_0000_0000_0000_0000_0000_0000nat
}

/// The number that four little-endian 64-bit limbs stand for.
pub open spec fn limbs4_value(l: Seq<u64>) -> nat
    recommends
        l.len() == 4,
{
    l[0] as nat + l[1] as nat * pow2_64() + l[2] as nat * pow2_128() + l[3] as nat * pow2_192()
}

/// The number that five little-endian 64-bit limbs stand for.
pub open spec fn limbs5_value(l: Seq<u64>) -> nat
    recommends
        l.len() == 5,
{
    l[0] as nat + l[1] as nat * pow2_64() + l[2] as nat * pow2_128() + l[3] as nat * pow2_192()
        + l[4] as nat * pow2_256()
}

/// The number that a big-endian byte string stands for; the empty string
/// stands for zero.
pub open spec fn big_endian_value(bytes: Seq<u8>) -> nat
    decreases bytes.len(),
{
    if bytes.len() == 0 {
        0
    } else {
        big_endian_value(bytes.drop_last()) * 256 + bytes.last() as nat
    }
}

/// A raw token amount: an unsigned 256-bit integer held as four 64-bit
/// limbs, least significant first.
#[derive(Clone, Copy, Debug)]
pub struct Amount {
    pub limbs: [u64; 4],
}

impl View for Amount {
    type V = nat;

    open spec fn view(&self) -> nat {
        limbs4_value(self.limbs@)
    }
}

/// A number has one lowest digit and one rest: two ways of writing it as
/// a digit below 2^64 plus 2^64 times a rest are the same way.
proof fn lemma_same_digits(low: nat, rest: nat, other_low: nat, other_rest: nat)
    requires
        low < pow2_64(),
        other_low < pow2_64(),
        low + pow2_64() * rest == other_low + pow2_64() * other_rest,
    ensures
        low == other_low,
        rest == other_rest,
{
    assert(low == other_low && rest == other_rest) by (nonlinear_arith)
        requires
            low < 0x1_0000_0000_0000_0000,
            other_low < 0x1_0000_0000_0000_0000,
            low + 0x1_0000_0000_0000_0000 * rest == other_low + 0x1_0000_0000_0000_0000
                * other_rest,
    ;
}

/// Sum of two limbs and an incoming carry, as a limb and an outgoing carry.
fn add_with_carry(a: u64, b: u64, carry: u64) -> (r: (u64, u64))
    requires
        carry <= 1,
    ensures
        r.1 <= 1,
        r.0 as nat + r.1 as nat * pow2_64() == a as nat + b as nat + carry as nat,
{
    let sum: u128 = a as u128 + b as u128 + carry as u128;
    let low: u128 = sum % 0x1_0000_0000_0000_0000u128;
    let high: u128 = sum / 0x1_0000_0000_0000_0000u128;
    (low as u64, high as u64)
}

/// Difference of two limbs and an incoming borrow, as a limb and an
/// outgoing borrow.
fn sub_with_borrow(a: u64, b: u64, borrow: u64) -> (r: (u64, u64))
    requires
        borrow <= 1,
    ensures
        r.1 <= 1,
        r.0 as int - r.1 as int * pow2_64() as int == a as int - b as int - borrow as int,
{
    let taken: u128 = b as u128 + borrow as u128;
    if a as u128 >= taken {
        ((a as u128 - taken) as u64, 0)
    } else {
        ((0x1_0000_0000_0000_0000u128 + a as u128 - taken) as u64, 1)
    }
}

/// Five limbs subtracted from five limbs, lowest first, each with the
/// borrow of the one before: the difference limbs, less 2^320 where the
/// last borrow is set, are the difference of the two numbers.
proof fn lemma_borrow_chain(a: Seq<u64>, b: Seq<u64>, d: Seq<u64>, borrow: Seq<u64>)
    requires
        a.len() == 5,
        b.len() == 5,
        d.len() == 5,
        borrow.len() == 5,
        d[0] - borrow[0] * pow2_64() == a[0] - b[0],
        forall|i: int|
            1 <= i < 5 ==> #[trigger] d[i] - borrow[i] * pow2_64() == a[i] - b[i] - borrow[i - 1],
        borrow[4] <= 1,
    ensures
        limbs5_value(d) - borrow[4] * pow2_320() == limbs5_value(a) - limbs5_value(b),
        borrow[4] == 0 <==> limbs5_value(a) >= limbs5_value(b),
{
    assert(d[1] - borrow[1] * pow2_64() == a[1] - b[1] - borrow[0]);
    assert(d[2] - borrow[2] * pow2_64() == a[2] - b[2] - borrow[1]);
    assert(d[3] - borrow[3] * pow2_64() == a[3] - b[3] - borrow[2]);
    assert(d[4] - borrow[4] * pow2_64() == a[4] - b[4] - borrow[3]);
    assert(d[0] + d[1] * pow2_64() - borrow[1] * pow2_128() == a[0] - b[0] + (a[1] - b[1])
        * pow2_64());
    assert(d[0] + d[1] * pow2_64() + d[2] * pow2_128() - borrow[2] * pow2_192() == a[0] - b[0] + (
    a[1] - b[1]) * pow2_64() + (a[2] - b[2]) * pow2_128());
    assert(d[0] + d[1] * pow2_64() + d[2] * pow2_128() + d[3] * pow2_192() - borrow[3] * pow2_256()
        == a[0] - b[0] + (a[1] - b[1]) * pow2_64() + (a[2] - b[2]) * pow2_128() + (a[3] - b[3])
        * pow2_192());
    assert(limbs5_value(d) - borrow[4] * pow2_320() == limbs5_value(a) - limbs5_value(b));
    assert(limbs5_value(d) < pow2_320());
}

/// Calls `U256::from_big_endian` of `ethers`.
///
/// Trusted, not proved: for at most thirty-two bytes the call returns the
/// number that the bytes spell in big-endian order, and the limbs of the
/// result are the limbs of that number, least significant first. The call
/// panics on a longer slice, which `requires` leaves out.
#[verifier::external_body]
fn u256_from_big_endian(bytes: &[u8]) -> (a: Amount)
    requires
        bytes@.len() <= 32,
    ensures
        a@ == big_endian_value(bytes@),
{
    Amount { limbs: ethers::types::U256::from_big_endian(bytes).0 }
}

/// The amount that an event's data field carries: its first thirty-two
/// bytes as a big-endian number, and zero where the field is shorter.
pub open spec fn amount_in_data(data: Seq<u8>) -> nat {
    if data.len() >= 32 {
        big_endian_value(data.subrange(0, 32))
    } else {
        0
    }
}

/// The number in the last thirty-two bytes of a call's reply, or in all of
/// it where it is shorter.
pub open spec fn number_in_reply(reply: Seq<u8>) -> nat {
    if reply.len() >= 32 {
        big_endian_value(reply.subrange(reply.len() - 32, reply.len() as int))
    } else {
        big_endian_value(reply)
    }
}

impl Amount {
    /// Reads the amount of a transfer from the data field of its log.
    pub fn from_log_data(data: &[u8]) -> (a: Amount)
        ensures
            a@ == amount_in_data(data@),
    {
        if data.len() >= 32 {
            u256_from_big_endian(vstd::slice::slice_subrange(data, 0, 32))
        } else {
            Amount::zero()
        }
    }

    /// Reads the number at the end of a call's reply.
    pub fn from_reply(reply: &[u8]) -> (a: Amount)
        ensures
            a@ == number_in_reply(reply@),
    {
        let n = reply.len();
        if n >= 32 {
            u256_from_big_endian(vstd::slice::slice_subrange(reply, n - 32, n))
        } else {
            u256_from_big_endian(reply)
        }
    }

    /// The amount zero.
    pub fn zero() -> (a: Amount)
        ensures
            a@ == 0,
    {
        Amount { limbs: [0u64; 4] }
    }

    /// The amount with the given value.
    pub fn from_u128(value: u128) -> (a: Amount)
        ensures
            a@ == value,
    {
        let low: u128 = value % 0x1_0000_0000_0000_0000u128;
        let high: u128 = value / 0x1_0000_0000_0000_0000u128;
        Amount { limbs: [low as u64, high as u64, 0, 0] }
    }

    /// The amount held as four limbs, least significant first.
    pub fn from_limbs(limbs: [u64; 4]) -> (a: Amount)
        ensures
            a.limbs == limbs,
            a@ == limbs4_value(limbs@),
    {
        Amount { limbs }
    }

    /// The four limbs, least significant first.
    pub fn limbs(&self) -> (l: [u64; 4])
        ensures
            l == self.limbs,
    {
        self.limbs
    }

    /// Every amount is below 2^256.
    pub proof fn lemma_bounded(self)
        ensures
            self@ < pow2_256(),
    {
    }

    /// Two amounts are the same number exactly when they are equal: a
    /// number has one way of being held in limbs.
    pub proof fn lemma_equal_by_value(self, other: Amount)
        ensures
            self@ == other@ <==> self.limbs@ == other.limbs@,
    {
        if self@ == other@ {
            let a = self.limbs@;
            let b = other.limbs@;
            lemma_same_digits(
                a[0] as nat,
                a[1] as nat + pow2_64() * (a[2] as nat + pow2_64() * a[3] as nat),
                b[0] as nat,
                b[1] as nat + pow2_64() * (b[2] as nat + pow2_64() * b[3] as nat),
            );
            lemma_same_digits(
                a[1] as nat,
                a[2] as nat + pow2_64() * a[3] as nat,
                b[1] as nat,
                b[2] as nat + pow2_64() * b[3] as nat,
            );
            lemma_same_digits(a[2] as nat, a[3] as nat, b[2] as nat, b[3] as nat);
            assert(a =~= b);
        }
    }

    /// Splits the amount into its high 192 bits and its low 64 bits, the two
    /// parts from which a display value is formed without first rounding the
    /// whole 256-bit integer. Both parts of zero are zero, and of no other
    /// amount.
    pub fn split_high_low(&self) -> (parts: ([u64; 3], u64))
        ensures
            self@ == (parts.0@[0] as nat + parts.0@[1] as nat * pow2_64() + parts.0@[2] as nat
                * pow2_128()) * pow2_64() + parts.1 as nat,
            self@ == 0 <==> parts.1 == 0 && parts.0@[0] == 0 && parts.0@[1] == 0 && parts.0@[2]
                == 0,
    {
        ([self.limbs[1], self.limbs[2], self.limbs[3]], self.limbs[0])
    }

    /// The amount as a 64-bit number, where it fits in one.
    pub fn to_u64(&self) -> (r: Option<u64>)
        ensures
            r is Some <==> self@ <= u64::MAX,
            r matches Some(v) ==> v == self@,
    {
        if self.limbs[1] == 0 && self.limbs[2] == 0 && self.limbs[3] == 0 {
            Some(self.limbs[0])
        } else {
            None
        }
    }
}

impl PartialEq for Amount {
    fn eq(&self, other: &Amount) -> (same: bool) {
        let same = self.limbs[0] == other.limbs[0] && self.limbs[1] == other.limbs[1]
            && self.limbs[2] == other.limbs[2] && self.limbs[3] == other.limbs[3];
        assert(same == (self.limbs@ =~= other.limbs@));
        same
    }
}

impl PartialEqSpecImpl for Amount {
    open spec fn obeys_eq_spec() -> bool {
        true
    }

    open spec fn eq_spec(&self, other: &Amount) -> bool {
        self.limbs@ == other.limbs@
    }
}

/// A running total of raw amounts: an unsigned 320-bit integer held as five
/// 64-bit limbs, least significant first.
#[derive(Clone, Copy, Debug)]
pub struct Total {
    pub limbs: [u64; 5],
}

impl View for Total {
    type V = nat;

    open spec fn view(&self) -> nat {
        limbs5_value(self.limbs@)
    }
}

impl Total {
    /// The total zero.
    pub fn zero() -> (t: Total)
        ensures
            t@ == 0,
    {
        Total { limbs: [0u64; 5] }
    }

    /// The total held as five limbs, least significant first.
    pub fn from_limbs(limbs: [u64; 5]) -> (t: Total)
        ensures
            t.limbs == limbs,
            t@ == limbs5_value(limbs@),
    {
        Total { limbs }
    }

    /// The five limbs, least significant first.
    pub fn limbs(&self) -> (l: [u64; 5])
        ensures
            l == self.limbs,
    {
        self.limbs
    }

    /// Every total is below 2^320.
    pub proof fn lemma_bounded(self)
        ensures
            self@ < pow2_320(),
    {
    }

    /// Two totals are the same number exactly when they are equal.
    pub proof fn lemma_equal_by_value(self, other: Total)
        ensures
            self@ == other@ <==> self.limbs@ == other.limbs@,
    {
        if self@ == other@ {
            let a = self.limbs@;
            let b = other.limbs@;
            lemma_same_digits(
                a[0] as nat,
                a[1] as nat + pow2_64() * (a[2] as nat + pow2_64() * (a[3] as nat + pow2_64()
                    * a[4] as nat)),
                b[0] as nat,
                b[1] as nat + pow2_64() * (b[2] as nat + pow2_64() * (b[3] as nat + pow2_64()
                    * b[4] as nat)),
            );
            lemma_same_digits(
                a[1] as nat,
                a[2] as nat + pow2_64() * (a[3] as nat + pow2_64() * a[4] as nat),
                b[1] as nat,
                b[2] as nat + pow2_64() * (b[3] as nat + pow2_64() * b[4] as nat),
            );
            lemma_same_digits(
                a[2] as nat,
                a[3] as nat + pow2_64() * a[4] as nat,
                b[2] as nat,
                b[3] as nat + pow2_64() * b[4] as nat,
            );
            lemma_same_digits(a[3] as nat, a[4] as nat, b[3] as nat, b[4] as nat);
            assert(a =~= b);
        }
    }

    /// Adds a raw amount. Returns `None`, and only then, when the sum does
    /// not fit in 320 bits.
    pub fn checked_add(&self, amount: &Amount) -> (sum: Option<Total>)
        ensures
            sum is Some <==> self@ + amount@ < pow2_320(),
            sum matches Some(t) ==> t@ == self@ + amount@,
    {
        let (l0, c0) = add_with_carry(self.limbs[0], amount.limbs[0], 0);
        let (l1, c1) = add_with_carry(self.limbs[1], amount.limbs[1], c0);
        let (l2, c2) = add_with_carry(self.limbs[2], amount.limbs[2], c1);
        let (l3, c3) = add_with_carry(self.limbs[3], amount.limbs[3], c2);
        let (l4, c4) = add_with_carry(self.limbs[4], 0, c3);
        let t = Total { limbs: [l0, l1, l2, l3, l4] };
        proof {
            let a = self.limbs@;
            let b = amount.limbs@;
            // The limbs so far and the carry out of them make up the sum
            // of the limbs added so far.
            assert(l0 + l1 * pow2_64() + c1 * pow2_128() == a[0] + b[0] + (a[1] + b[1])
                * pow2_64());
            assert(l0 + l1 * pow2_64() + l2 * pow2_128() + c2 * pow2_192() == a[0] + b[0] + (a[1]
                + b[1]) * pow2_64() + (a[2] + b[2]) * pow2_128());
            assert(l0 + l1 * pow2_64() + l2 * pow2_128() + l3 * pow2_192() + c3 * pow2_256()
                == a[0] + b[0] + (a[1] + b[1]) * pow2_64() + (a[2] + b[2]) * pow2_128() + (a[3]
                + b[3]) * pow2_192());
            assert(t@ + c4 * pow2_320() == self@ + amount@);
        }
        if c4 == 0 {
            Some(t)
        } else {
            None
        }
    }

    /// Whether this total is at least `other`.
    pub fn at_least(&self, other: &Total) -> (r: bool)
        ensures
            r == (self@ >= other@),
    {
        let (_d0, b0) = sub_with_borrow(self.limbs[0], other.limbs[0], 0);
        let (_d1, b1) = sub_with_borrow(self.limbs[1], other.limbs[1], b0);
        let (_d2, b2) = sub_with_borrow(self.limbs[2], other.limbs[2], b1);
        let (_d3, b3) = sub_with_borrow(self.limbs[3], other.limbs[3], b2);
        let (_d4, b4) = sub_with_borrow(self.limbs[4], other.limbs[4], b3);
        proof {
            lemma_borrow_chain(
                self.limbs@,
                other.limbs@,
                seq![_d0, _d1, _d2, _d3, _d4],
                seq![b0, b1, b2, b3, b4],
            );
        }
        b4 == 0
    }

    /// The difference `self - other`, for `self` at least `other`.
    pub fn minus(&self, other: &Total) -> (d: Total)
        requires
            self@ >= other@,
        ensures
            d@ == self@ - other@,
    {
        let (d0, b0) = sub_with_borrow(self.limbs[0], other.limbs[0], 0);
        let (d1, b1) = sub_with_borrow(self.limbs[1], other.limbs[1], b0);
        let (d2, b2) = sub_with_borrow(self.limbs[2], other.limbs[2], b1);
        let (d3, b3) = sub_with_borrow(self.limbs[3], other.limbs[3], b2);
        let (d4, b4) = sub_with_borrow(self.limbs[4], other.limbs[4], b3);
        proof {
            lemma_borrow_chain(
                self.limbs@,
                other.limbs@,
                seq![d0, d1, d2, d3, d4],
                seq![b0, b1, b2, b3, b4],
            );
        }
        Total { limbs: [d0, d1, d2, d3, d4] }
    }
}

impl PartialEq for Total {
    fn eq(&self, other: &Total) -> (same: bool) {
        let same = self.limbs[0] == other.limbs[0] && self.limbs[1] == other.limbs[1]
            && self.limbs[2] == other.limbs[2] && self.limbs[3] == other.limbs[3]
            && self.limbs[4] == other.limbs[4];
        assert(same == (self.limbs@ =~= other.limbs@));
        same
    }
}

impl PartialEqSpecImpl for Total {
    open spec fn obeys_eq_spec() -> bool {
        true
    }

    open spec fn eq_spec(&self, other: &Total) -> bool {
        self.limbs@ == other.limbs@
    }
}

} // verus!
