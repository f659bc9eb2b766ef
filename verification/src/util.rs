//! The Internet one's-complement checksum over an arbitrary byte range,
//! as IPv4 and ICMP use it.

use vstd::prelude::*;

verus! {

/// The plain sum of the 16-bit big-endian words of `s`. An odd trailing
/// byte is treated as if followed by a zero byte, so it contributes as the
/// high byte of a final word.
pub open spec fn word_sum(s: Seq<u8>) -> int
    decreases s.len(),
{
    if s.len() == 0 {
        0
    } else if s.len() == 1 {
        s[0] * 0x100
    } else {
        s[0] * 0x100 + s[1] + word_sum(s.skip(2))
    }
}

/// The end-around-carry reduction of a non-negative word sum into 16 bits:
/// the sum taken modulo 0xffff, except that a positive multiple of 0xffff
/// reduces to 0xffff itself rather than to 0.
pub open spec fn fold_sum(x: int) -> int {
    if x % 0xffff == 0 {
        if x == 0 {
            0
        } else {
            0xffff
        }
    } else {
        x % 0xffff
    }
}

/// What `checksum` returns: the one's complement of the folded word sum.
pub open spec fn spec_checksum(s: Seq<u8>) -> u16 {
    (0xffff - fold_sum(word_sum(s))) as u16
}

pub proof fn lemma_word_sum_nonneg(s: Seq<u8>)
    ensures
        word_sum(s) >= 0,
    decreases s.len(),
{
    if s.len() >= 2 {
        lemma_word_sum_nonneg(s.skip(2));
    }
}

/// Two non-negative sums congruent modulo 0xffff, zero only together,
/// fold to the same 16-bit value.
proof fn lemma_fold_congruent(a: int, b: int)
    requires
        a >= 0,
        b >= 0,
        a % 0xffff == b % 0xffff,
        a == 0 <==> b == 0,
    ensures
        fold_sum(a) == fold_sum(b),
{
}

/// Subtracting one end-around carry keeps the folded value.
proof fn lemma_fold_carry_step(a: int)
    requires
        a > 0xffff,
    ensures
        fold_sum(a - 0xffff) == fold_sum(a),
{
    vstd::arithmetic::div_mod::lemma_mod_multiples_vanish(1, a - 0xffff, 0xffff);
    lemma_fold_congruent(a - 0xffff, a);
}

/// Computes the Internet checksum of `buf`: the 16-bit big-endian words
/// are summed with end-around carry and the result is complemented.
pub fn checksum(buf: &[u8]) -> (r: u16)
    ensures
        r == spec_checksum(buf@),
{
    let n = buf.len();
    let mut sum: u32 = 0;
    let mut i: usize = 0;
    proof {
        assert(buf@.skip(0) =~= buf@);
    }
    while n - i > 1
        invariant
            n == buf@.len(),
            i <= n,
            sum <= 0xffff,
            fold_sum(sum + word_sum(buf@.skip(i as int))) == fold_sum(word_sum(buf@)),
        decreases n - i,
    {
        let w: u32 = (buf[i] as u32) * 0x100 + (buf[i + 1] as u32);
        proof {
            let rest = buf@.skip(i as int);
            assert(rest.skip(2) =~= buf@.skip(i + 2));
            assert(word_sum(rest) == w + word_sum(buf@.skip(i + 2)));
            lemma_word_sum_nonneg(buf@.skip(i + 2));
            if sum + w > 0xffff {
                lemma_fold_carry_step(sum + w + word_sum(buf@.skip(i + 2)));
            }
        }
        sum = sum + w;
        if sum > 0xffff {
            sum = sum - 0xffff;
        }
        i = i + 2;
    }
    if i < n {
        let w: u32 = (buf[i] as u32) * 0x100;
        proof {
            let rest = buf@.skip(i as int);
            assert(rest.len() == 1);
            assert(word_sum(rest) == w);
            if sum + w > 0xffff {
                lemma_fold_carry_step(sum + w);
            }
        }
        sum = sum + w;
        if sum > 0xffff {
            sum = sum - 0xffff;
        }
        i = n;
    }
    proof {
        assert(buf@.skip(i as int) =~= Seq::<u8>::empty());
        assert(word_sum(buf@.skip(i as int)) == 0);
    }
    (0xffff - sum) as u16
}

/// Replacing the zeroed 16-bit word at an even offset adds exactly that
/// word's value to the word sum.
proof fn lemma_word_sum_update(s: Seq<u8>, k: int, hi: u8, lo: u8)
    requires
        0 <= k,
        2 * k + 1 < s.len(),
        s[2 * k] == 0,
        s[2 * k + 1] == 0,
    ensures
        word_sum(s.update(2 * k, hi).update(2 * k + 1, lo)) == word_sum(s) + hi * 0x100 + lo,
    decreases k,
{
    let t = s.update(2 * k, hi).update(2 * k + 1, lo);
    if k == 0 {
        assert(t.skip(2) =~= s.skip(2));
        assert(word_sum(t) == hi * 0x100 + lo + word_sum(s.skip(2)));
        assert(word_sum(s) == word_sum(s.skip(2)));
    } else {
        assert(t.skip(2) =~= s.skip(2).update(2 * (k - 1), hi).update(2 * (k - 1) + 1, lo));
        lemma_word_sum_update(s.skip(2), k - 1, hi, lo);
        assert(word_sum(t) == s[0] * 0x100 + s[1] + word_sum(t.skip(2)));
    }
}

/// The checksum is self-verifying: take any buffer whose 16-bit checksum
/// field, at an even byte offset, holds zero; write the buffer's checksum
/// into that field in big-endian order; the checksum of the patched buffer
/// is then 0.
pub proof fn lemma_checksum_self_verifying(s: Seq<u8>, k: int)
    requires
        0 <= k,
        2 * k + 1 < s.len(),
        s[2 * k] == 0,
        s[2 * k + 1] == 0,
    ensures
        ({
            let c = spec_checksum(s);
            spec_checksum(s.update(2 * k, (c / 0x100) as u8).update(2 * k + 1, (c % 0x100) as u8))
                == 0
        }),
{
    let w = word_sum(s);
    lemma_word_sum_nonneg(s);
    let f = fold_sum(w);
    let c = spec_checksum(s);
    assert(0 <= f <= 0xffff);
    assert(c == 0xffff - f);
    let hi = (c / 0x100) as u8;
    let lo = (c % 0x100) as u8;
    lemma_word_sum_update(s, k, hi, lo);
    let t = s.update(2 * k, hi).update(2 * k + 1, lo);
    assert(hi * 0x100 + lo == c);
    assert(word_sum(t) == w + c);
    if w == 0 {
        assert(f == 0);
        assert(word_sum(t) == 0xffff);
        assert(fold_sum(0xffff) == 0xffff);
    } else {
        // w and f are congruent modulo 0xffff, so w + c is a positive
        // multiple of 0xffff and folds to 0xffff.
        if w % 0xffff == 0 {
            assert(f == 0xffff);
            assert(word_sum(t) == w);
        } else {
            assert(f == w % 0xffff);
            vstd::arithmetic::div_mod::lemma_mod_multiples_vanish(1, w - f, 0xffff);
            vstd::arithmetic::div_mod::lemma_fundamental_div_mod(w, 0xffff);
            assert((w - f) % 0xffff == 0);
            assert(word_sum(t) == (w - f) + 0xffff);
        }
        vstd::arithmetic::div_mod::lemma_mod_multiples_vanish(1, word_sum(t) - 0xffff, 0xffff);
        assert(word_sum(t) % 0xffff == 0);
        assert(word_sum(t) > 0);
        assert(fold_sum(word_sum(t)) == 0xffff);
    }
}

} // verus!
