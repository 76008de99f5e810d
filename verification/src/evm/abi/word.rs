//! Arithmetic on the 32-byte words of the ABI: what a word is worth as a
//! number, and the tests and conversions that the JSON encoding needs.

use vstd::prelude::*;
use crate::json::{int_text, nat_text};

verus! {

/// The value of a byte string read as a big-endian number.
pub open spec fn be_value(bytes: Seq<u8>) -> nat
    decreases bytes.len(),
{
    if bytes.len() == 0 {
        0
    } else {
        be_value(bytes.drop_last()) * 256 + bytes.last() as nat
    }
}

/// 2 to the power 32.
pub open spec fn two_pow_32() -> nat {
    0x1_0000_0000
}

/// 256 to the power `n`: the number of values that `n` bytes can hold.
pub open spec fn pow256(n: nat) -> nat
    decreases n,
{
    if n == 0 {
        1
    } else {
        256 * pow256((n - 1) as nat)
    }
}

/// The integer that a word stands for in two's complement.
pub open spec fn twos_complement(word: Seq<u8>) -> int {
    if word.len() > 0 && word[0] >= 128 {
        be_value(word) - pow256(word.len())
    } else {
        be_value(word) as int
    }
}

/// The last four bytes of a word, read as a 32-bit integer in two's
/// complement.
pub open spec fn low_i32(word: Seq<u8>) -> int {
    let low = be_value(word.subrange(word.len() - 4, word.len() as int));
    if low >= 0x8000_0000 {
        low - two_pow_32()
    } else {
        low as int
    }
}

/// Every byte before position `k` is zero.
pub open spec fn zero_prefix(bytes: Seq<u8>, k: int) -> bool {
    forall|i: int| 0 <= i < k ==> bytes[i] == 0
}

/// A byte string is worth less than 256 to the power of its length.
pub proof fn lemma_be_value_bound(bytes: Seq<u8>)
    ensures
        be_value(bytes) < pow256(bytes.len()),
    decreases bytes.len(),
{
    if bytes.len() > 0 {
        lemma_be_value_bound(bytes.drop_last());
    }
}

/// A byte string is worth its first `k` bytes, shifted by the length of the
/// rest, plus the rest.
pub proof fn lemma_be_value_split(bytes: Seq<u8>, k: int)
    requires
        0 <= k <= bytes.len(),
    ensures
        be_value(bytes) == be_value(bytes.take(k)) * pow256((bytes.len() - k) as nat) + be_value(
            bytes.skip(k),
        ),
    decreases bytes.len() - k,
{
    if k == bytes.len() {
        assert(bytes.take(k) =~= bytes);
        assert(bytes.skip(k) =~= Seq::<u8>::empty());
        assert(pow256(0) == 1);
        assert(be_value(bytes.skip(k)) == 0);
        let a = be_value(bytes) as int;
        let p = pow256((bytes.len() - k) as nat) as int;
        assert(a * p == a) by (nonlinear_arith)
            requires
                p == 1,
        ;
    } else {
        let front = bytes.drop_last();
        let rest = bytes.skip(k);
        lemma_be_value_split(front, k);
        assert(front.take(k) =~= bytes.take(k));
        assert(rest.drop_last() =~= front.skip(k));
        assert(rest.last() == bytes.last());
        let a = be_value(bytes.take(k)) as int;
        let t = be_value(front.skip(k)) as int;
        let p = pow256((front.len() - k) as nat) as int;
        assert(be_value(front) == a * p + t);
        assert(be_value(rest) == t * 256 + bytes.last() as int);
        assert(be_value(bytes) == be_value(front) * 256 + bytes.last() as int);
        let q = pow256((bytes.len() - k) as nat) as int;
        assert(q == 256 * p);
        assert(a * q == (a * p) * 256) by (nonlinear_arith)
            requires
                q == 256 * p,
        ;
    }
}

/// A byte string of zeros is worth zero, and one with a byte that is not zero
/// is worth more.
pub proof fn lemma_be_value_zero(bytes: Seq<u8>)
    ensures
        zero_prefix(bytes, bytes.len() as int) <==> be_value(bytes) == 0,
    decreases bytes.len(),
{
    if bytes.len() > 0 {
        let front = bytes.drop_last();
        lemma_be_value_zero(front);
        if zero_prefix(bytes, bytes.len() as int) {
            assert(zero_prefix(front, front.len() as int)) by {
                assert forall|i: int| 0 <= i < front.len() implies front[i] == 0 by {
                    assert(front[i] == bytes[i]);
                }
            }
        }
        if be_value(bytes) == 0 {
            assert(bytes.last() == 0);
            assert(be_value(front) == 0);
            assert forall|i: int| 0 <= i < bytes.len() implies bytes[i] == 0 by {
                if i < front.len() {
                    assert(front[i] == bytes[i]);
                }
            }
        }
    }
}

/// Four bytes can hold 2^32 values.
pub proof fn lemma_pow256_4()
    ensures
        pow256(4) == two_pow_32(),
{
    reveal_with_fuel(pow256, 5);
}

/// A word is below 2^32 exactly when all but its last four bytes are zero.
pub proof fn lemma_small_word(word: Seq<u8>)
    requires
        word.len() >= 4,
    ensures
        zero_prefix(word, word.len() - 4) <==> be_value(word) < two_pow_32(),
        zero_prefix(word, word.len() - 4) ==> be_value(word) == be_value(
            word.skip(word.len() - 4),
        ),
{
    let k = word.len() - 4;
    let head = word.take(k);
    let tail = word.skip(k);
    lemma_be_value_split(word, k);
    lemma_be_value_bound(tail);
    lemma_be_value_zero(head);
    lemma_pow256_4();
    if zero_prefix(word, k) {
        assert(zero_prefix(head, head.len() as int));
    }
    if zero_prefix(head, head.len() as int) {
        assert forall|i: int| 0 <= i < k implies word[i] == 0 by {
            assert(head[i] == word[i]);
        }
    }
    let h = be_value(head) as int;
    let p = pow256((word.len() - k) as nat) as int;
    assert(p == two_pow_32());
    assert(be_value(word) == h * p + be_value(tail));
    if h > 0 {
        assert(h * p >= p) by (nonlinear_arith)
            requires
                h >= 1,
                p >= 0,
        ;
    } else {
        assert(h * p == 0) by (nonlinear_arith)
            requires
                h == 0,
        ;
    }
}

/// Four bytes are worth what the usual formula says.
pub proof fn lemma_be_value_4(b: Seq<u8>)
    requires
        b.len() == 4,
    ensures
        be_value(b) == ((b[0] as nat * 256 + b[1] as nat) * 256 + b[2] as nat) * 256 + b[3] as nat,
{
    let b3 = b.drop_last();
    let b2 = b3.drop_last();
    let b1 = b2.drop_last();
    assert(b1.drop_last() =~= Seq::<u8>::empty());
    assert(be_value(b1.drop_last()) == 0);
    assert(be_value(b1) == b[0] as nat);
    assert(be_value(b2) == be_value(b1) * 256 + b[1] as nat);
    assert(be_value(b3) == be_value(b2) * 256 + b[2] as nat);
}

/// Whether the unsigned number in `word` is below 2^32.
pub fn fits_u32(word: &[u8; 32]) -> (small: bool)
    ensures
        small == (be_value(word@) < two_pow_32()),
{
    let mut i: usize = 0;
    while i < 28
        invariant
            0 <= i <= 28,
            zero_prefix(word@, i as int),
        decreases 28 - i,
    {
        if word[i] != 0 {
            proof {
                lemma_small_word(word@);
            }
            return false;
        }
        i = i + 1;
    }
    proof {
        lemma_small_word(word@);
    }
    true
}

/// The last four bytes of `word` as a signed 32-bit number.
pub fn low_i32_of(word: &[u8; 32]) -> (value: i64)
    ensures
        value == low_i32(word@),
{
    let b0: u64 = word[28] as u64;
    let b1: u64 = word[29] as u64;
    let b2: u64 = word[30] as u64;
    let b3: u64 = word[31] as u64;
    let low: u64 = ((b0 * 256 + b1) * 256 + b2) * 256 + b3;
    proof {
        let tail = word@.subrange(28, 32);
        lemma_be_value_4(tail);
        assert(tail[0] == word@[28] && tail[1] == word@[29] && tail[2] == word@[30] && tail[3]
            == word@[31]);
    }
    if low >= 0x8000_0000 {
        low as i64 - 0x1_0000_0000
    } else {
        low as i64
    }
}

/// The first `k + 1` bytes are worth the first `k`, shifted by one byte,
/// plus the byte at `k`.
pub proof fn lemma_be_value_step(bytes: Seq<u8>, k: int)
    requires
        0 <= k < bytes.len(),
    ensures
        be_value(bytes.take(k + 1)) == be_value(bytes.take(k)) * 256 + bytes[k] as nat,
{
    let next = bytes.take(k + 1);
    assert(next.drop_last() =~= bytes.take(k));
    assert(next.last() == bytes[k]);
}

/// Divides the number in `word` by ten: the quotient, and the remainder.
pub fn div10(word: &[u8; 32]) -> (r: ([u8; 32], u8))
    ensures
        be_value(word@) == be_value(r.0@) * 10 + r.1,
        r.1 < 10,
{
    let mut quotient: [u8; 32] = [0u8; 32];
    let mut rem: u16 = 0;
    let mut i: usize = 0;
    assert(word@.take(0) =~= Seq::<u8>::empty());
    assert(quotient@.take(0) =~= Seq::<u8>::empty());
    while i < 32
        invariant
            0 <= i <= 32,
            rem < 10,
            be_value(word@.take(i as int)) == be_value(quotient@.take(i as int)) * 10 + rem,
        decreases 32 - i,
    {
        let cur: u16 = rem * 256 + word[i] as u16;
        let q: u8 = (cur / 10) as u8;
        let ghost before = quotient@;
        quotient[i] = q;
        proof {
            assert(quotient@.take(i as int) =~= before.take(i as int));
            lemma_be_value_step(word@, i as int);
            lemma_be_value_step(quotient@, i as int);
        }
        rem = cur % 10;
        i = i + 1;
    }
    assert(word@.take(32) =~= word@);
    assert(quotient@.take(32) =~= quotient@);
    (quotient, rem as u8)
}

/// Whether the number in `word` is zero.
pub fn is_zero(word: &[u8; 32]) -> (zero: bool)
    ensures
        zero == (be_value(word@) == 0),
{
    let mut i: usize = 0;
    while i < 32
        invariant
            0 <= i <= 32,
            zero_prefix(word@, i as int),
        decreases 32 - i,
    {
        if word[i] != 0 {
            proof {
                lemma_be_value_zero(word@);
            }
            return false;
        }
        i = i + 1;
    }
    proof {
        lemma_be_value_zero(word@);
    }
    true
}

/// Appends the decimal digits of the unsigned number in `word`.
pub fn write_uint_decimal(w: &mut Vec<u8>, word: &[u8; 32])
    ensures
        final(w)@ == old(w)@ + nat_text(be_value(word@)),
    decreases be_value(word@),
{
    let (quotient, rem) = div10(word);
    if !is_zero(&quotient) {
        write_uint_decimal(w, &quotient);
    }
    w.push(48 + rem);
    assert(w@ =~= old(w)@ + nat_text(be_value(word@)));
}

/// The bytes of `inverted` are those of `word`, each taken from 255.
pub open spec fn inverts(word: Seq<u8>, inverted: Seq<u8>) -> bool {
    &&& inverted.len() == word.len()
    &&& forall|i: int| 0 <= i < word.len() ==> inverted[i] == 255 - word[i]
}

/// A number and its inverse add up to the largest number of their length.
pub proof fn lemma_inverted_value(word: Seq<u8>, inverted: Seq<u8>)
    requires
        inverts(word, inverted),
    ensures
        be_value(word) + be_value(inverted) + 1 == pow256(word.len()),
    decreases word.len(),
{
    if word.len() > 0 {
        assert(inverts(word.drop_last(), inverted.drop_last()));
        lemma_inverted_value(word.drop_last(), inverted.drop_last());
    }
}

/// `after` is `before` with one added: the bytes before `k` are the same,
/// the byte at `k` is one more, and the bytes after `k`, which were 255, are
/// zero.
pub open spec fn carried(before: Seq<u8>, after: Seq<u8>, k: int) -> bool {
    &&& after.len() == before.len()
    &&& 0 <= k < before.len()
    &&& forall|i: int| 0 <= i < k ==> after[i] == before[i]
    &&& before[k] < 255
    &&& after[k] == before[k] + 1
    &&& forall|i: int| k < i < before.len() ==> before[i] == 255 && after[i] == 0
}

/// Adding one with a carry adds one to the number.
pub proof fn lemma_carried_value(before: Seq<u8>, after: Seq<u8>, k: int, n: int)
    requires
        carried(before, after, k),
        k < n <= before.len(),
    ensures
        be_value(after.take(n)) == be_value(before.take(n)) + 1,
    decreases n,
{
    lemma_be_value_step(before, n - 1);
    lemma_be_value_step(after, n - 1);
    if n - 1 == k {
        assert(after.take(k) =~= before.take(k));
    } else {
        lemma_carried_value(before, after, k, n - 1);
    }
}

/// The magnitude of the negative number that `word` holds in two's
/// complement.
pub fn negate(word: &[u8; 32]) -> (magnitude: [u8; 32])
    requires
        word@[0] >= 128,
    ensures
        be_value(magnitude@) == pow256(32) - be_value(word@),
{
    let mut inverted: [u8; 32] = [0u8; 32];
    let mut i: usize = 0;
    while i < 32
        invariant
            0 <= i <= 32,
            forall|j: int| 0 <= j < i ==> inverted@[j] == 255 - word@[j],
        decreases 32 - i,
    {
        inverted[i] = 255 - word[i];
        i = i + 1;
    }
    proof {
        lemma_inverted_value(word@, inverted@);
    }
    let ghost before = inverted@;
    let mut k: usize = 31;
    while inverted[k] == 255
        invariant
            0 <= k <= 31,
            before[0] < 128,
            inverted@.len() == 32,
            before.len() == 32,
            forall|j: int| 0 <= j <= k ==> inverted@[j] == before[j],
            forall|j: int| k < j < 32 ==> before[j] == 255 && inverted@[j] == 0,
        decreases k,
    {
        inverted[k] = 0;
        k = k - 1;
    }
    let ghost mid = inverted@;
    assert(forall|j: int| k < j < 32 ==> before[j] == 255 && mid[j] == 0);
    assert(forall|j: int| 0 <= j <= k ==> mid[j] == before[j]);
    inverted[k] = inverted[k] + 1;
    proof {
        assert(carried(before, inverted@, k as int));
        lemma_carried_value(before, inverted@, k as int, 32);
        assert(before.take(32) =~= before);
        assert(inverted@.take(32) =~= inverted@);
    }
    inverted
}

/// Appends the decimal form of the signed number that `word` holds in two's
/// complement.
pub fn write_int_decimal(w: &mut Vec<u8>, word: &[u8; 32])
    ensures
        final(w)@ == old(w)@ + int_text(twos_complement(word@)),
{
    if word[0] >= 128 {
        let magnitude: [u8; 32] = negate(word);
        proof {
            lemma_be_value_bound(word@);
        }
        w.push(45);
        write_uint_decimal(w, &magnitude);
        assert(w@ =~= old(w)@ + int_text(twos_complement(word@)));
    } else {
        write_uint_decimal(w, word);
    }
}

} // verus!
