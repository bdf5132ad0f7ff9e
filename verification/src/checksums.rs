//! Internet checksums (RFC 1071): one's-complement sums of byte strings as
//! big-endian 16-bit words, with end-around carry folding, and the law that a
//! checksum written into its own field makes the whole string validate.

use vstd::arithmetic::div_mod::{
    lemma_add_mod_noop, lemma_fundamental_div_mod, lemma_mod_multiples_vanish, lemma_small_mod,
};
use vstd::prelude::*;

verus! {

/// Plain sum of a byte string read as big-endian 16-bit words; an odd
/// trailing byte counts as the high half of a final word.
pub open spec fn ones_sum(s: Seq<u8>) -> int
    decreases s.len(),
{
    if s.len() == 0 {
        0
    } else if s.len() == 1 {
        256 * (s[0] as int)
    } else {
        256 * (s[0] as int) + (s[1] as int) + ones_sum(s.skip(2))
    }
}

/// Fold end-around carries: add the upper half back until 16 bits remain.
pub open spec fn fold16(x: int) -> int
    recommends
        x >= 0,
    decreases x,
    when x >= 0
{
    if x < 0x10000 {
        x
    } else {
        fold16(x / 0x10000 + x % 0x10000)
    }
}

/// The byte string with the 16-bit field at even offset `p` zeroed.
pub open spec fn zero2(s: Seq<u8>, p: int) -> Seq<u8> {
    s.update(p, 0u8).update(p + 1, 0u8)
}

/// The one's-complement checksum of a byte string: the folded sum, inverted.
pub open spec fn checksum16(s: Seq<u8>) -> int {
    0xffff - fold16(ones_sum(s))
}

pub proof fn lemma_ones_sum_nonneg(s: Seq<u8>)
    ensures
        ones_sum(s) >= 0,
    decreases s.len(),
{
    if s.len() >= 2 {
        lemma_ones_sum_nonneg(s.skip(2));
    }
}

pub proof fn lemma_fold16_bounds(x: int)
    requires
        x >= 0,
    ensures
        0 <= fold16(x) < 0x10000,
    decreases x,
{
    if x >= 0x10000 {
        lemma_fold16_bounds(x / 0x10000 + x % 0x10000);
    }
}

pub proof fn lemma_fold16_mod(x: int)
    requires
        x >= 0,
    ensures
        fold16(x) % 0xffff == x % 0xffff,
    decreases x,
{
    if x >= 0x10000 {
        let q = x / 0x10000;
        let r = x % 0x10000;
        lemma_fundamental_div_mod(x, 0x10000);
        assert(x == 0xffff * q + (q + r));
        lemma_mod_multiples_vanish(q, q + r, 0xffff);
        lemma_fold16_mod(q + r);
    }
}

pub proof fn lemma_fold16_pos(x: int)
    requires
        x > 0,
    ensures
        fold16(x) > 0,
    decreases x,
{
    if x >= 0x10000 {
        lemma_fundamental_div_mod(x, 0x10000);
        lemma_fold16_pos(x / 0x10000 + x % 0x10000);
    }
}

/// Splitting a sum at an even boundary splits the word sum.
pub proof fn lemma_ones_sum_append(a: Seq<u8>, b: Seq<u8>)
    requires
        a.len() % 2 == 0,
    ensures
        ones_sum(a + b) == ones_sum(a) + ones_sum(b),
    decreases a.len(),
{
    if a.len() == 0 {
        assert(a + b =~= b);
    } else {
        assert((a + b).skip(2) =~= a.skip(2) + b);
        lemma_ones_sum_append(a.skip(2), b);
    }
}

/// Writing the 16-bit word `256*x + y` at even offset `p` adds exactly that
/// word to the sum of the string with the field zeroed.
pub proof fn lemma_ones_sum_word(s: Seq<u8>, p: int, x: u8, y: u8)
    requires
        s.len() % 2 == 0,
        0 <= p,
        p % 2 == 0,
        p + 2 <= s.len(),
    ensures
        ones_sum(s.update(p, x).update(p + 1, y)) == ones_sum(zero2(s, p)) + 256 * (x as int) + (
        y as int),
{
    let t = s.update(p, x).update(p + 1, y);
    let z = zero2(s, p);
    let head = s.take(p);
    let tail = s.skip(p + 2);
    assert(t =~= head + (seq![x, y] + tail));
    assert(z =~= head + (seq![0u8, 0u8] + tail));
    lemma_ones_sum_append(head, seq![x, y] + tail);
    lemma_ones_sum_append(head, seq![0u8, 0u8] + tail);
    let wx = seq![x, y] + tail;
    let wz = seq![0u8, 0u8] + tail;
    assert(wx.skip(2) =~= tail);
    assert(wz.skip(2) =~= tail);
    assert(wx.len() >= 2 && wx[0] == x && wx[1] == y);
    assert(wz.len() >= 2 && wz[0] == 0u8 && wz[1] == 0u8);
    assert(ones_sum(wx) == 256 * (x as int) + (y as int) + ones_sum(tail));
    assert(ones_sum(wz) == ones_sum(tail));
}

/// The checksum law: compute the checksum of the string with its checksum
/// field zeroed, write it into that field big-endian, and the folded sum of
/// the whole string comes out all-ones.
pub proof fn lemma_checksum_write_validates(s: Seq<u8>, p: int)
    requires
        s.len() % 2 == 0,
        0 <= p,
        p % 2 == 0,
        p + 2 <= s.len(),
    ensures
        ({
            let c = checksum16(zero2(s, p));
            fold16(
                ones_sum(s.update(p, (c / 256) as u8).update(p + 1, (c % 256) as u8)),
            ) == 0xffff
        }),
{
    let s0 = ones_sum(zero2(s, p));
    lemma_ones_sum_nonneg(zero2(s, p));
    lemma_fold16_bounds(s0);
    let c = 0xffff - fold16(s0);
    assert(0 <= c <= 0xffff);
    let hi = (c / 256) as u8;
    let lo = (c % 256) as u8;
    lemma_fundamental_div_mod(c, 256);
    assert(256 * (hi as int) + (lo as int) == c);
    lemma_ones_sum_word(s, p, hi, lo);
    let t = ones_sum(s.update(p, hi).update(p + 1, lo));
    assert(t == s0 + c);
    // t is congruent to 0 modulo 0xffff, positive, and folds below 0x10000,
    // so the fold is exactly 0xffff.
    assert(t % 0xffff == 0) by {
        lemma_fold16_mod(s0);
        lemma_add_mod_noop(s0, c, 0xffff);
        lemma_add_mod_noop(fold16(s0), c, 0xffff);
        assert((fold16(s0) + c) % 0xffff == 0xffffint % 0xffff);
    }
    lemma_fold16_pos(t);
    lemma_fold16_bounds(t);
    lemma_fold16_mod(t);
    let f = fold16(t);
    assert(f % 0xffff == 0);
    assert(0 < f < 0x10000);
    assert(f == 0xffff) by {
        if f < 0xffff {
            lemma_small_mod(f as nat, 0xffff);
        }
    }
}

/// Fold a 32-bit accumulated sum down to 16 bits with end-around carry.
pub fn propagate_carries(word: u32) -> (r: u16)
    ensures
        r as int == fold16(word as int),
{
    proof {
        reveal_with_fuel(fold16, 4);
    }
    let sum: u32 = (word / 0x10000) + (word % 0x10000);
    if sum < 0x10000 {
        sum as u16
    } else {
        let folded: u32 = (sum / 0x10000) + (sum % 0x10000);
        proof {
            assert(sum <= 0x1fffe);
            assert(sum / 0x10000 == 1);
            assert(folded < 0x10000);
        }
        folded as u16
    }
}

/// RFC 1071 internet checksum accumulation: the folded (not inverted) word
/// sum of the whole string; all-ones means a carried checksum is valid.
pub fn rfc1071(data: &[u8]) -> (r: u16)
    requires
        data@.len() < 0x1000_0000,
    ensures
        r as int == fold16(ones_sum(data@)),
{
    let n = data.len();
    let mut acc: u64 = 0;
    let mut i: usize = 0;
    while i + 2 <= n
        invariant
            n == data@.len() < 0x1000_0000,
            i % 2 == 0,
            i <= n,
            acc == ones_sum(data@.take(i as int)),
            acc <= 0xffff * ((i as int) / 2),
        decreases n - i,
    {
        let word: u64 = 256 * (data[i] as u64) + (data[i + 1] as u64);
        proof {
            lemma_take_word_step(data@, i as int);
        }
        acc = acc + word;
        i = i + 2;
    }
    if i < n {
        proof {
            lemma_take_odd_step(data@, i as int);
        }
        acc = acc + 256 * (data[i] as u64);
        i = i + 1;
    }
    proof {
        assert(data@.take(n as int) =~= data@);
    }
    let ghost total = ones_sum(data@);
    while acc >= 0x10000
        invariant
            acc <= 0xffff * 0x1000_0000,
            fold16(acc as int) == fold16(total),
        decreases acc,
    {
        acc = acc / 0x10000 + acc % 0x10000;
    }
    acc as u16
}

/// Step lemma: extending an even-length prefix by one word adds that word.
proof fn lemma_take_word_step(s: Seq<u8>, i: int)
    requires
        0 <= i,
        i % 2 == 0,
        i + 2 <= s.len(),
    ensures
        ones_sum(s.take(i + 2)) == ones_sum(s.take(i)) + 256 * (s[i] as int) + (s[i + 1] as int),
{
    assert(s.take(i + 2) =~= s.take(i) + seq![s[i], s[i + 1]]);
    lemma_ones_sum_append(s.take(i), seq![s[i], s[i + 1]]);
    let w = seq![s[i], s[i + 1]];
    assert(w.skip(2) =~= Seq::<u8>::empty());
    assert(w.len() == 2 && w[0] == s[i] && w[1] == s[i + 1]);
    assert(ones_sum(w.skip(2)) == 0);
    assert(ones_sum(w) == 256 * (s[i] as int) + (s[i + 1] as int));
}

/// Step lemma: an odd trailing byte counts as the high half of a word.
proof fn lemma_take_odd_step(s: Seq<u8>, i: int)
    requires
        0 <= i,
        i % 2 == 0,
        i + 1 == s.len(),
    ensures
        ones_sum(s.take(i + 1)) == ones_sum(s.take(i)) + 256 * (s[i] as int),
{
    assert(s.take(i + 1) =~= s.take(i) + seq![s[i]]);
    lemma_ones_sum_append(s.take(i), seq![s[i]]);
    assert(ones_sum(seq![s[i]]) == 256 * (s[i] as int));
}

/// One's-complement checksum over a byte string of even length, optionally
/// treating the 16-bit field at even offset `pos` as zero; returns the
/// inverted folded sum, the value to be written into that field.
pub fn one_complement_sum(data: &[u8], pos: Option<usize>) -> (r: u16)
    requires
        data@.len() % 2 == 0,
        data@.len() < 0x1000_0000,
        match pos {
            Some(p) => p % 2 == 0 && p + 2 <= data@.len(),
            None => true,
        },
    ensures
        r as int == match pos {
            Some(p) => checksum16(zero2(data@, p as int)),
            None => checksum16(data@),
        },
{
    let ghost target: Seq<u8> = match pos {
        Some(p) => zero2(data@, p as int),
        None => data@,
    };
    proof {
        assert(target.len() == data@.len());
    }
    let n = data.len();
    let mut acc: u64 = 0;
    let mut i: usize = 0;
    while i + 2 <= n
        invariant
            n == data@.len() < 0x1000_0000,
            n % 2 == 0,
            target.len() == n,
            i % 2 == 0,
            i <= n,
            match pos {
                Some(p) => p % 2 == 0 && p + 2 <= n && target == zero2(data@, p as int),
                None => target == data@,
            },
            forall|j: int|
                0 <= j < n ==> target[j] == match pos {
                    Some(p) => if j == p || j == p + 1 {
                        0u8
                    } else {
                        data@[j]
                    },
                    None => data@[j],
                },
            acc == ones_sum(target.take(i as int)),
            acc <= 0xffff * ((i as int) / 2),
        decreases n - i,
    {
        let skip = match pos {
            Some(p) => i == p,
            None => false,
        };
        proof {
            lemma_take_word_step(target, i as int);
        }
        if !skip {
            let word: u64 = 256 * (data[i] as u64) + (data[i + 1] as u64);
            acc = acc + word;
        }
        i = i + 2;
    }
    proof {
        assert(target.take(n as int) =~= target);
        lemma_ones_sum_nonneg(target);
    }
    let ghost total = ones_sum(target);
    while acc >= 0x10000
        invariant
            acc <= 0xffff * 0x1000_0000,
            fold16(acc as int) == fold16(total),
        decreases acc,
    {
        acc = acc / 0x10000 + acc % 0x10000;
    }
    proof {
        lemma_fold16_bounds(total);
    }
    0xffffu16 - (acc as u16)
}

} // verus!
