//! Native machine words as bytes, in either byte order.

use vstd::prelude::*;
use vstd::arithmetic::div_mod::lemma_mod_breakdown;
use vstd::arithmetic::div_mod::lemma_div_denominator;

verus! {

/// `256` raised to the power `n`.
pub open spec fn pow256(n: nat) -> nat
    decreases n,
{
    if n == 0 {
        1
    } else {
        256 * pow256((n - 1) as nat)
    }
}

/// The low `n` bytes of `v`, least significant first when `le`, else most
/// significant first.
pub open spec fn word_bytes(v: nat, n: nat, le: bool) -> Seq<u8>
    decreases n,
{
    if n == 0 {
        Seq::empty()
    } else if le {
        seq![(v % 256) as u8] + word_bytes(v / 256, (n - 1) as nat, true)
    } else {
        word_bytes(v / 256, (n - 1) as nat, false) + seq![(v % 256) as u8]
    }
}

/// The number that the bytes `b` stand for in the given byte order.
pub open spec fn word_value(b: Seq<u8>, le: bool) -> nat
    decreases b.len(),
{
    if b.len() == 0 {
        0
    } else if le {
        b[0] as nat + 256 * word_value(b.drop_first(), true)
    } else {
        b.last() as nat + 256 * word_value(b.drop_last(), false)
    }
}

pub proof fn lemma_pow256_positive(n: nat)
    ensures
        pow256(n) > 0,
    decreases n,
{
    if n > 0 {
        lemma_pow256_positive((n - 1) as nat);
    }
}

pub proof fn lemma_pow256_values()
    ensures
        pow256(2) == 0x1_0000,
        pow256(4) == 0x1_0000_0000,
        pow256(8) == 0x1_0000_0000_0000_0000,
{
    reveal_with_fuel(pow256, 9);
}

pub proof fn lemma_word_bytes_len(v: nat, n: nat, le: bool)
    ensures
        word_bytes(v, n, le).len() == n,
    decreases n,
{
    if n > 0 {
        lemma_word_bytes_len(v / 256, (n - 1) as nat, le);
    }
}

pub proof fn lemma_word_value_bound(b: Seq<u8>, le: bool)
    ensures
        word_value(b, le) < pow256(b.len()),
    decreases b.len(),
{
    if b.len() > 0 {
        if le {
            lemma_word_value_bound(b.drop_first(), true);
        } else {
            lemma_word_value_bound(b.drop_last(), false);
        }
        let r: nat = if le { word_value(b.drop_first(), true) } else { word_value(b.drop_last(), false) };
        let p = pow256((b.len() - 1) as nat);
        assert(r + 1 <= p);
        assert(256 * (r + 1) <= 256 * p) by (nonlinear_arith)
            requires r + 1 <= p;
    }
}

/// Reading back the bytes of a word gives the word, cut to its width.
pub proof fn lemma_word_round_trip(v: nat, n: nat, le: bool)
    ensures
        word_value(word_bytes(v, n, le), le) == v % pow256(n),
    decreases n,
{
    if n == 0 {
        assert(v % 1 == 0);
    } else {
        let rest = word_bytes(v / 256, (n - 1) as nat, le);
        lemma_word_round_trip(v / 256, (n - 1) as nat, le);
        lemma_pow256_positive((n - 1) as nat);
        lemma_word_bytes_len(v / 256, (n - 1) as nat, le);
        let b = word_bytes(v, n, le);
        if le {
            assert(b.drop_first() =~= rest);
        } else {
            assert(b.drop_last() =~= rest);
        }
        lemma_mod_breakdown(v as int, 256, pow256((n - 1) as nat) as int);
    }
}

/// Appends the low `n` bytes of `v` to `buf`.
pub fn push_word(buf: &mut Vec<u8>, v: u64, n: usize, le: bool)
    ensures
        final(buf)@ == old(buf)@ + word_bytes(v as nat, n as nat, le),
    decreases n,
{
    if n == 0 {
        assert(old(buf)@ + word_bytes(v as nat, 0, le) =~= old(buf)@);
        return;
    }
    let low: u8 = (v % 256) as u8;
    let pre = Ghost(buf@);
    if le {
        buf.push(low);
        push_word(buf, v / 256, n - 1, le);
        assert(buf@ =~= pre@ + word_bytes(v as nat, n as nat, le));
    } else {
        push_word(buf, v / 256, n - 1, le);
        buf.push(low);
        assert(buf@ =~= pre@ + word_bytes(v as nat, n as nat, le));
    }
}

/// The word stored in `n` bytes of `b` from `off` on.
pub fn read_word(b: &[u8], off: usize, n: usize, le: bool) -> (r: u64)
    requires
        n <= 8,
        off + n <= b@.len(),
    ensures
        r as nat == word_value(b@.subrange(off as int, off + n), le),
    decreases n,
{
    if n == 0 {
        return 0;
    }
    let _len = b.len();
    let s = Ghost(b@.subrange(off as int, off + n));
    if le {
        let rest = read_word(b, off + 1, n - 1, le);
        assert(s@.drop_first() =~= b@.subrange(off + 1, off + n));
        proof {
            lemma_word_value_bound(s@.drop_first(), le);
            lemma_pow256_values();
            assert(pow256(7) == 0x100_0000_0000_0000) by { reveal_with_fuel(pow256, 8); }
            assert(pow256((n - 1) as nat) <= pow256(7)) by { lemma_pow256_monotone((n - 1) as nat, 7); }
        }
        b[off] as u64 + 256 * rest
    } else {
        let rest = read_word(b, off, n - 1, le);
        assert(s@.drop_last() =~= b@.subrange(off as int, off + n - 1));
        proof {
            lemma_word_value_bound(s@.drop_last(), le);
            assert(pow256(7) == 0x100_0000_0000_0000) by { reveal_with_fuel(pow256, 8); }
            assert(pow256((n - 1) as nat) <= pow256(7)) by { lemma_pow256_monotone((n - 1) as nat, 7); }
        }
        b[off + n - 1] as u64 + 256 * rest
    }
}

pub proof fn lemma_pow256_monotone(a: nat, b: nat)
    requires
        a <= b,
    ensures
        pow256(a) <= pow256(b),
    decreases b,
{
    if a < b {
        lemma_pow256_monotone(a, (b - 1) as nat);
        lemma_pow256_positive((b - 1) as nat);
    }
}

} // verus!
