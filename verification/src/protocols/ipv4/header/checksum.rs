//! The Internet checksum: the one's-complement sum of the 16-bit words of
//! a range of octets, complemented.
use vstd::prelude::*;

verus! {

/// The word of `s` with index `k`, in network byte order. A last odd octet
/// counts as the high half of a word whose low half is zero.
pub open spec fn word_at(s: Seq<u8>, k: int) -> nat {
    if 2 * k + 1 < s.len() {
        (s[2 * k] as nat) * 256 + s[2 * k + 1] as nat
    } else {
        (s[2 * k] as nat) * 256
    }
}

/// The sum of the first `n` words of `s`, as a natural number.
pub open spec fn sum_words(s: Seq<u8>, n: nat) -> nat
    decreases n,
{
    if n == 0 {
        0
    } else {
        sum_words(s, (n - 1) as nat) + word_at(s, n - 1)
    }
}

/// The number of words in `s`.
pub open spec fn word_count(s: Seq<u8>) -> nat {
    ((s.len() + 1) / 2) as nat
}

/// The sum of all words of `s`, as a natural number.
pub open spec fn word_sum(s: Seq<u8>) -> nat {
    sum_words(s, word_count(s))
}

/// The one's-complement sum that stands for the natural number `t`: zero
/// for zero, and else the number between 1 and 0xffff that differs from `t`
/// by a multiple of 0xffff. It is what is left when every carry out of the
/// low sixteen bits is added back in.
pub open spec fn fold(t: nat) -> nat {
    if t == 0 {
        0
    } else {
        ((t - 1) % 0xffff + 1) as nat
    }
}

/// The Internet checksum of `s`.
pub open spec fn internet_checksum(s: Seq<u8>) -> nat {
    (0xffff - fold(word_sum(s))) as nat
}

/// Adding a word with end-around carry keeps the one's-complement sum.
pub proof fn lemma_fold_step(t: nat, w: nat)
    requires
        w <= 0xffff,
    ensures
        fold(t) <= 0xffff,
        fold(t + w) == if fold(t) + w > 0xffff {
            (fold(t) + w - 0xffff) as nat
        } else {
            fold(t) + w
        },
{
}

/// Folding may be done at any time: the one's-complement sum of a sum is
/// that of the folded first part and the second.
pub proof fn lemma_fold_absorb(a: nat, b: nat)
    ensures
        fold(fold(a) + b) == fold(a + b),
        fold(a) <= 0xffff,
        a > 0 ==> fold(a) > 0,
{
    if a > 0 {
        let m = 0xffff as int;
        let x = a - 1;
        assert(x == m * (x / m) + x % m) by {
            vstd::arithmetic::div_mod::lemma_fundamental_div_mod(x, m);
        }
        let r = x % m;
        // fold(a) = r + 1, so fold(a) + b - 1 = r + b and a + b - 1 = x + b.
        assert((r + b) % m == (x + b) % m) by {
            vstd::arithmetic::div_mod::lemma_mod_multiples_vanish(x / m, r + b, m);
            assert(m * (x / m) + (r + b) == x + b);
        }
    }
}

/// The words of `s` beyond its end add nothing, and the first `n` words of
/// `a + b` are those of `a` while `n` stays within `a`.
proof fn lemma_sum_words_prefix(a: Seq<u8>, b: Seq<u8>, n: nat)
    requires
        2 * n <= a.len(),
    ensures
        sum_words(a + b, n) == sum_words(a, n),
    decreases n,
{
    if n > 0 {
        lemma_sum_words_prefix(a, b, (n - 1) as nat);
        assert((a + b)[2 * (n - 1)] == a[2 * (n - 1)]);
        assert((a + b)[2 * (n - 1) + 1] == a[2 * (n - 1) + 1]);
    }
}

proof fn lemma_sum_words_suffix(a: Seq<u8>, b: Seq<u8>, n: nat)
    requires
        a.len() % 2 == 0,
        n <= word_count(b),
    ensures
        sum_words(a + b, (a.len() / 2) as nat + n) == sum_words(a, (a.len() / 2) as nat)
            + sum_words(b, n),
    decreases n,
{
    let na = (a.len() / 2) as nat;
    if n == 0 {
        lemma_sum_words_prefix(a, b, na);
    } else {
        lemma_sum_words_suffix(a, b, (n - 1) as nat);
        let k = n - 1;
        assert((a + b)[2 * (na + k)] == b[2 * k]);
        if 2 * k + 1 < b.len() {
            assert((a + b)[2 * (na + k) + 1] == b[2 * k + 1]);
        }
        assert(word_at(a + b, na + k) == word_at(b, k));
    }
}

/// The words of a range that begins on a word boundary add up on their
/// own: after an even number of octets, the sum of `a + b` is the sum of
/// `a` and the sum of `b`.
pub proof fn lemma_word_sum_concat(a: Seq<u8>, b: Seq<u8>)
    requires
        a.len() % 2 == 0,
    ensures
        word_sum(a + b) == word_sum(a) + word_sum(b),
{
    lemma_sum_words_suffix(a, b, word_count(b));
    assert(word_count(a + b) == a.len() / 2 + word_count(b));
}

/// The running state of an Internet checksum: the one's-complement sum of
/// the words written so far.
pub struct Hasher {
    state: u16,
}

impl Hasher {
    /// The one's-complement sum of what was written.
    pub closed spec fn sum(&self) -> nat {
        self.state as nat
    }

    pub fn new() -> (r: Hasher)
        ensures
            r.sum() == 0,
    {
        Hasher { state: 0 }
    }

    /// Adds the words of `bytes`. Each call begins on a word boundary; a
    /// last odd octet is the high half of a word.
    pub fn write(&mut self, bytes: &[u8])
        ensures
            final(self).sum() == fold(old(self).sum() + word_sum(bytes@)),
    {
        let n: usize = bytes.len();
        let words: usize = n / 2 + n % 2;
        let mut k: usize = 0;
        let mut acc: u32 = self.state as u32;
        proof {
            lemma_fold_step(0, old(self).sum());
        }
        while k < words
            invariant
                n == bytes@.len(),
                words == word_count(bytes@),
                k <= words,
                acc <= 0xffff,
                acc == fold(old(self).sum() + sum_words(bytes@, k as nat)),
            decreases words - k,
        {
            let hi: u32 = bytes[2 * k] as u32;
            let lo: u32 = if 2 * k + 1 < n {
                bytes[2 * k + 1] as u32
            } else {
                0
            };
            let word: u32 = hi * 256 + lo;
            proof {
                assert(word == word_at(bytes@, k as int));
                lemma_fold_step(old(self).sum() + sum_words(bytes@, k as nat), word as nat);
            }
            let next: u32 = acc + word;
            acc = if next > 0xffff {
                next - 0xffff
            } else {
                next
            };
            k = k + 1;
        }
        self.state = acc as u16;
    }

    /// The checksum of what was written: the complement of the sum.
    pub fn finish(&self) -> (r: u16)
        ensures
            r == 0xffff - self.sum(),
    {
        0xffff - self.state
    }
}

/// The Internet checksum of a range of octets.
pub fn checksum(bytes: &[u8]) -> (r: u16)
    ensures
        r == internet_checksum(bytes@),
{
    let mut hasher = Hasher::new();
    hasher.write(bytes);
    proof {
        lemma_fold_absorb(0, word_sum(bytes@));
    }
    hasher.finish()
}

/// A checksum verifies itself: where the field that holds it was zero
/// while it was computed, the range with the checksum written into that
/// field has checksum zero. `rest` is the sum of the other words.
pub proof fn lemma_checksum_verifies(rest: nat)
    ensures
        fold(rest + (0xffff - fold(rest)) as nat) == 0xffff,
        0xffff - fold(rest + (0xffff - fold(rest)) as nat) == 0,
{
    lemma_fold_absorb(rest, (0xffff - fold(rest)) as nat);
}

/// The converse: a stored checksum other than 0xffff under which a range
/// with a nonzero sum verifies is the one computed with the field zeroed.
pub proof fn lemma_checksum_unique(rest: nat, stored: nat)
    requires
        rest > 0,
        stored < 0xffff,
        fold(rest + stored) == 0xffff,
    ensures
        stored == 0xffff - fold(rest),
{
    lemma_fold_absorb(rest, stored);
    lemma_fold_step(rest, stored);
}

} // verus!
