//! Unsigned 256-bit token amounts.
//!
//! An [`Amount`] holds the four 64-bit words of a 256-bit integer, least
//! significant word first, and is viewed as the natural number they spell.
//! Multiplication, division and the reading of big-endian bytes are done by
//! `ethabi::ethereum_types::U256`; everything else is computed here.

use ethabi::ethereum_types::U256;
use vstd::prelude::*;

verus! {

/// The first natural number an [`Amount`] cannot hold: two to the power 256.
pub open spec fn amount_limit() -> nat {
    0x1_0000_0000_0000_0000_0000_0000_0000_0000_0000_0000_0000_0000_0000_0000_0000_0000nat
}

/// The number that a byte string spells when read most significant byte first.
pub open spec fn be_value(bytes: Seq<u8>) -> nat
    decreases bytes.len(),
{
    if bytes.len() == 0 {
        0
    } else {
        be_value(bytes.drop_last()) * 256 + bytes.last() as nat
    }
}

/// The number that a byte string spells when read least significant byte first.
pub open spec fn le_value(bytes: Seq<u8>) -> nat
    decreases bytes.len(),
{
    if bytes.len() == 0 {
        0
    } else {
        bytes.first() as nat + 256 * le_value(bytes.drop_first())
    }
}

/// Ten to the power `e`.
pub open spec fn pow10(e: nat) -> nat
    decreases e,
{
    if e == 0 {
        1
    } else {
        10 * pow10((e - 1) as nat)
    }
}

/// An unsigned 256-bit integer: `w0` is the least significant word.
#[derive(Clone, Copy, Debug, PartialEq, Eq, Structural)]
pub struct Amount {
    pub w0: u64,
    pub w1: u64,
    pub w2: u64,
    pub w3: u64,
}

impl View for Amount {
    type V = nat;

    open spec fn view(&self) -> nat {
        (self.w0 as nat) + (self.w1 as nat) * 0x1_0000_0000_0000_0000nat + (self.w2 as nat)
            * 0x1_0000_0000_0000_0000_0000_0000_0000_0000nat + (self.w3 as nat)
            * 0x1_0000_0000_0000_0000_0000_0000_0000_0000_0000_0000_0000_0000nat
    }
}

/// Every amount is below [`amount_limit`].
pub proof fn lemma_amount_bounded(a: Amount)
    ensures
        a@ < amount_limit(),
{
    assert((a.w1 as nat) * 0x1_0000_0000_0000_0000nat <= 0xffff_ffff_ffff_ffff_0000_0000_0000_0000nat);
    assert((a.w2 as nat) * 0x1_0000_0000_0000_0000_0000_0000_0000_0000nat
        <= 0xffff_ffff_ffff_ffff_0000_0000_0000_0000_0000_0000_0000_0000nat);
    assert((a.w3 as nat) * 0x1_0000_0000_0000_0000_0000_0000_0000_0000_0000_0000_0000_0000nat
        <= 0xffff_ffff_ffff_ffff_0000_0000_0000_0000_0000_0000_0000_0000_0000_0000_0000_0000nat);
}

/// `pow10` never decreases.
pub proof fn lemma_pow10_monotonic(a: nat, b: nat)
    requires
        a <= b,
    ensures
        1 <= pow10(a) <= pow10(b),
    decreases b,
{
    if b == 0 {
    } else if a == b {
        lemma_pow10_monotonic((a - 1) as nat, (b - 1) as nat);
    } else {
        lemma_pow10_monotonic(a, (b - 1) as nat);
    }
}

impl Amount {
    /// The amount zero.
    pub fn zero() -> (r: Amount)
        ensures
            r@ == 0,
    {
        Amount { w0: 0, w1: 0, w2: 0, w3: 0 }
    }

    /// The amount with the given words, least significant first.
    pub fn from_words(words: [u64; 4]) -> (r: Amount)
        ensures
            r.w0 == words[0],
            r.w1 == words[1],
            r.w2 == words[2],
            r.w3 == words[3],
    {
        Amount { w0: words[0], w1: words[1], w2: words[2], w3: words[3] }
    }

    /// The words of the amount, least significant first.
    pub fn to_words(self) -> (r: [u64; 4])
        ensures
            r[0] == self.w0,
            r[1] == self.w1,
            r[2] == self.w2,
            r[3] == self.w3,
    {
        [self.w0, self.w1, self.w2, self.w3]
    }

    /// The amount equal to `x`.
    pub fn from_u64(x: u64) -> (r: Amount)
        ensures
            r@ == x,
    {
        Amount { w0: x, w1: 0, w2: 0, w3: 0 }
    }

    /// The amount equal to `x`.
    pub fn from_u128(x: u128) -> (r: Amount)
        ensures
            r@ == x,
    {
        let low: u128 = x % 0x1_0000_0000_0000_0000u128;
        let high: u128 = x / 0x1_0000_0000_0000_0000u128;
        Amount { w0: low as u64, w1: high as u64, w2: 0, w3: 0 }
    }

    /// The amount as a `u128`, where it fits.
    pub fn to_u128(self) -> (r: Option<u128>)
        ensures
            r == (if self@ <= u128::MAX {
                Some(self@ as u128)
            } else {
                None
            }),
    {
        if self.w2 == 0 && self.w3 == 0 {
            let high: u128 = (self.w1 as u128) * 0x1_0000_0000_0000_0000u128;
            Some(high + self.w0 as u128)
        } else {
            None
        }
    }

    /// Whether the amount is zero.
    pub fn is_zero(self) -> (r: bool)
        ensures
            r == (self@ == 0),
    {
        self.w0 == 0 && self.w1 == 0 && self.w2 == 0 && self.w3 == 0
    }

    /// Reads an amount from at most 32 big-endian bytes; longer input is
    /// refused.
    pub fn from_be_bytes(bytes: &[u8]) -> (r: Option<Amount>)
        ensures
            r is Some <==> bytes@.len() <= 32,
            r matches Some(a) ==> a@ == be_value(bytes@),
    {
        if bytes.len() <= 32 {
            Some(u256_from_big_endian(bytes))
        } else {
            None
        }
    }

    /// The product, where it fits in 256 bits.
    pub fn checked_mul(self, other: Amount) -> (r: Option<Amount>)
        ensures
            r is Some <==> self@ * other@ < amount_limit(),
            r matches Some(p) ==> p@ == self@ * other@,
    {
        u256_checked_mul(self, other)
    }

    /// The quotient rounded down, where the divisor is not zero.
    pub fn checked_div(self, other: Amount) -> (r: Option<Amount>)
        ensures
            r is Some <==> other@ != 0,
            r matches Some(q) ==> q@ == self@ / other@,
    {
        u256_checked_div(self, other)
    }

    /// Ten to the power `e`, where it fits in 256 bits.
    pub fn pow10(e: u32) -> (r: Option<Amount>)
        ensures
            r is Some <==> pow10(e as nat) < amount_limit(),
            r matches Some(p) ==> p@ == pow10(e as nat),
    {
        let ten = Amount::from_u64(10);
        let mut acc = Amount::from_u64(1);
        let mut i: u32 = 0;
        while i < e
            invariant
                i <= e,
                ten@ == 10,
                acc@ == pow10(i as nat),
            decreases e - i,
        {
            match u256_checked_mul(acc, ten) {
                Some(next) => {
                    acc = next;
                },
                None => {
                    proof {
                        lemma_pow10_monotonic((i + 1) as nat, e as nat);
                    }
                    return None;
                },
            }
            i = i + 1;
        }
        proof {
            lemma_amount_bounded(acc);
        }
        Some(acc)
    }
}

/// Calls `U256::from_big_endian`, which left-pads the bytes with zeros to 32
/// and reads them as one big-endian number; it panics on more than 32 bytes.
#[verifier::external_body]
fn u256_from_big_endian(bytes: &[u8]) -> (r: Amount)
    requires
        bytes@.len() <= 32,
    ensures
        r@ == be_value(bytes@),
{
    Amount::from_words(U256::from_big_endian(bytes).0)
}

/// Calls `U256::checked_mul`, which returns the product, or `None` where the
/// product does not fit in 256 bits.
#[verifier::external_body]
fn u256_checked_mul(a: Amount, b: Amount) -> (r: Option<Amount>)
    ensures
        r is Some <==> a@ * b@ < amount_limit(),
        r matches Some(p) ==> p@ == a@ * b@,
{
    U256(a.to_words()).checked_mul(U256(b.to_words())).map(|p| Amount::from_words(p.0))
}

/// Calls `U256::checked_div`, which returns the quotient rounded down, or
/// `None` where the divisor is zero.
#[verifier::external_body]
fn u256_checked_div(a: Amount, b: Amount) -> (r: Option<Amount>)
    ensures
        r is Some <==> b@ != 0,
        r matches Some(q) ==> q@ == a@ / b@,
{
    U256(a.to_words()).checked_div(U256(b.to_words())).map(|q| Amount::from_words(q.0))
}

} // verus!
