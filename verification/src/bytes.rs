//! Small verified helpers on byte strings and strings.

use crate::amount::le_value;
use vstd::prelude::*;
use vstd::slice::slice_to_vec;

verus! {

/// Whether `data` begins with `prefix`.
pub open spec fn spec_starts_with(data: Seq<u8>, prefix: Seq<u8>) -> bool {
    prefix.len() <= data.len() && data.subrange(0, prefix.len() as int) == prefix
}

/// Whether `word` is a 32-byte word that holds a 20-byte address: its first
/// twelve bytes are zero.
pub open spec fn spec_is_address_word(word: Seq<u8>) -> bool {
    word.len() == 32 && forall|i: int| 0 <= i < 12 ==> word[i] == 0
}

/// Whether two byte strings are equal.
pub fn bytes_eq(a: &[u8], b: &[u8]) -> (r: bool)
    ensures
        r == (a@ == b@),
{
    if a.len() != b.len() {
        return false;
    }
    let mut i: usize = 0;
    while i < a.len()
        invariant
            i <= a@.len(),
            a@.len() == b@.len(),
            forall|j: int| 0 <= j < i ==> a@[j] == b@[j],
        decreases a@.len() - i,
    {
        if a[i] != b[i] {
            return false;
        }
        i = i + 1;
    }
    assert(a@ =~= b@);
    true
}

/// Whether two 32-byte identifiers are equal.
pub fn hash_eq(a: &[u8; 32], b: &[u8; 32]) -> (r: bool)
    ensures
        r == (*a == *b),
{
    let mut i: usize = 0;
    while i < 32
        invariant
            i <= 32,
            forall|j: int| 0 <= j < i ==> a[j] == b[j],
        decreases 32 - i,
    {
        if a[i] != b[i] {
            return false;
        }
        i = i + 1;
    }
    assert(*a =~= *b);
    true
}

/// Whether `data` begins with `prefix`.
pub fn starts_with(data: &[u8], prefix: &[u8]) -> (r: bool)
    ensures
        r == spec_starts_with(data@, prefix@),
{
    if prefix.len() > data.len() {
        return false;
    }
    let mut i: usize = 0;
    while i < prefix.len()
        invariant
            i <= prefix@.len() <= data@.len(),
            forall|j: int| 0 <= j < i ==> data@[j] == prefix@[j],
        decreases prefix@.len() - i,
    {
        if data[i] != prefix[i] {
            assert(data@.subrange(0, prefix@.len() as int)[i as int] == data@[i as int]);
            return false;
        }
        i = i + 1;
    }
    assert(data@.subrange(0, prefix@.len() as int) =~= prefix@);
    true
}

/// Whether `word` is a 32-byte word whose first twelve bytes are zero.
pub fn is_address_word(word: &[u8]) -> (r: bool)
    ensures
        r == spec_is_address_word(word@),
{
    if word.len() != 32 {
        return false;
    }
    let mut i: usize = 0;
    while i < 12
        invariant
            i <= 12,
            word@.len() == 32,
            forall|j: int| 0 <= j < i ==> word@[j] == 0,
        decreases 12 - i,
    {
        if word[i] != 0 {
            return false;
        }
        i = i + 1;
    }
    true
}

/// Whether two strings are equal.
pub fn str_eq(a: &str, b: &str) -> (r: bool)
    ensures
        r == (a@ == b@),
{
    let x = a.to_owned();
    let y = b.to_owned();
    x == y
}

/// A copy of a byte string.
pub fn copy_bytes(a: &[u8]) -> (r: Vec<u8>)
    ensures
        r@ == a@,
{
    slice_to_vec(a)
}

/// 256 to the power `n`.
pub open spec fn pow256(n: nat) -> nat
    decreases n,
{
    if n == 0 {
        1
    } else {
        256 * pow256((n - 1) as nat)
    }
}

proof fn lemma_pow256_small(n: nat)
    requires
        n <= 8,
    ensures
        1 <= pow256(n) <= 0x1_0000_0000_0000_0000,
{
    reveal_with_fuel(pow256, 10);
}

/// Reads eight bytes as a number, least significant byte first.
pub fn le_u64(bytes: &[u8]) -> (r: u64)
    requires
        bytes@.len() == 8,
    ensures
        r == le_value(bytes@),
{
    let mut acc: u64 = 0;
    let mut i: usize = 8;
    while i > 0
        invariant
            i <= 8,
            bytes@.len() == 8,
            acc == le_value(bytes@.subrange(i as int, 8)),
            acc < pow256((8 - i) as nat),
        decreases i,
    {
        i = i - 1;
        proof {
            let tail = bytes@.subrange(i as int, 8);
            assert(tail.drop_first() =~= bytes@.subrange(i as int + 1, 8));
            assert(tail.first() == bytes@[i as int]);
            lemma_pow256_small((8 - i) as nat);
            assert(pow256((8 - i) as nat) == 256 * pow256((8 - i - 1) as nat));
        }
        acc = acc * 256 + bytes[i] as u64;
    }
    assert(bytes@.subrange(0, 8) =~= bytes@);
    acc
}

} // verus!
