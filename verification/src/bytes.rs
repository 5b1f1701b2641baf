//! Big-endian byte encodings of unsigned integers, and the decomposition of a
//! 128-bit trace identifier into two 64-bit words.

use vstd::arithmetic::div_mod::{
    lemma_div_denominator, lemma_fundamental_div_mod, lemma_fundamental_div_mod_converse,
    lemma_multiply_divide_lt,
};
use vstd::prelude::*;

verus! {

/// 256 raised to the power `n`: the number of values an `n`-byte big-endian
/// field can hold.
pub open spec fn pow256(n: nat) -> nat
    decreases n,
{
    if n == 0 {
        1
    } else {
        256 * pow256((n - 1) as nat)
    }
}

/// The `n`-byte big-endian encoding of `v`; the last byte is the low byte.
pub open spec fn be_seq(v: nat, n: nat) -> Seq<u8> {
    Seq::new(n, |i: int| ((v / pow256((n - 1 - i) as nat)) % 256) as u8)
}

/// The value of a big-endian byte sequence.
pub open spec fn seq_val(s: Seq<u8>) -> nat
    decreases s.len(),
{
    if s.len() == 0 {
        0
    } else {
        seq_val(s.drop_last()) * 256 + s.last() as nat
    }
}

pub proof fn lemma_pow256_pos(n: nat)
    ensures
        pow256(n) >= 1,
    decreases n,
{
    if n > 0 {
        lemma_pow256_pos((n - 1) as nat);
    }
}

pub proof fn lemma_pow256_mono(a: nat, b: nat)
    requires
        a <= b,
    ensures
        pow256(a) <= pow256(b),
    decreases b,
{
    if a < b {
        lemma_pow256_mono(a, (b - 1) as nat);
        lemma_pow256_pos((b - 1) as nat);
    }
}

pub proof fn lemma_pow256_values()
    ensures
        pow256(0) == 1,
        pow256(1) == 256,
        pow256(2) == 65536,
        pow256(3) == 16777216,
        pow256(4) == 4294967296,
        pow256(5) == 1099511627776,
        pow256(6) == 281474976710656,
        pow256(7) == 72057594037927936,
        pow256(8) == 18446744073709551616,
        pow256(16) == 340282366920938463463374607431768211456,
{
    assert(pow256(0) == 1);
    assert(pow256(1) == 256);
    assert(pow256(2) == 65536);
    assert(pow256(3) == 16777216);
    assert(pow256(4) == 4294967296);
    assert(pow256(5) == 1099511627776);
    assert(pow256(6) == 281474976710656);
    assert(pow256(7) == 72057594037927936);
    assert(pow256(8) == 18446744073709551616);
    assert(pow256(9) == 4722366482869645213696);
    assert(pow256(10) == 1208925819614629174706176);
    assert(pow256(11) == 309485009821345068724781056);
    assert(pow256(12) == 79228162514264337593543950336);
    assert(pow256(13) == 20282409603651670423947251286016);
    assert(pow256(14) == 5192296858534827628530496329220096);
    assert(pow256(15) == 1329227995784915872903807060280344576);
    assert(pow256(16) == 340282366920938463463374607431768211456);
}

/// Peeling the low byte off a big-endian encoding leaves the encoding of the
/// quotient by 256.
pub proof fn lemma_be_seq_split(v: nat, n: nat)
    requires
        n >= 1,
    ensures
        be_seq(v, n).drop_last() =~= be_seq(v / 256, (n - 1) as nat),
        be_seq(v, n).last() == (v % 256) as u8,
{
    assert(be_seq(v, n).last() == ((v / pow256(0)) % 256) as u8);
    assert(pow256(0) == 1);
    assert(v / 1 == v) by (nonlinear_arith);
    assert forall|j: int| 0 <= j < n - 1 implies be_seq(v, n).drop_last()[j] == be_seq(
        v / 256,
        (n - 1) as nat,
    )[j] by {
        let k = (n - 2 - j) as nat;
        assert(pow256((k + 1) as nat) == 256 * pow256(k));
        lemma_pow256_pos(k);
        lemma_div_denominator(v as int, 256, pow256(k) as int);
        assert((v / 256) / pow256(k) == v / (256 * pow256(k)));
        assert(be_seq(v, n)[j] == ((v / pow256((n - 1 - j) as nat)) % 256) as u8);
    }
}

/// Reading back an `n`-byte big-endian encoding recovers the value, provided
/// the value fits in `n` bytes.
pub proof fn lemma_seq_val_be_seq(v: nat, n: nat)
    requires
        v < pow256(n),
    ensures
        seq_val(be_seq(v, n)) == v,
    decreases n,
{
    if n == 0 {
        assert(be_seq(v, n).len() == 0);
    } else {
        lemma_be_seq_split(v, n);
        assert(pow256(n) == 256 * pow256((n - 1) as nat));
        lemma_multiply_divide_lt(v as int, 256, pow256((n - 1) as nat) as int);
        lemma_seq_val_be_seq(v / 256, (n - 1) as nat);
        assert(seq_val(be_seq(v, n)) == seq_val(be_seq(v, n).drop_last()) * 256 + be_seq(
            v,
            n,
        ).last());
        lemma_fundamental_div_mod(v as int, 256);
    }
}

/// The value of an `n`-byte field always fits in `n` bytes.
pub proof fn lemma_seq_val_bound(s: Seq<u8>)
    ensures
        seq_val(s) < pow256(s.len()),
    decreases s.len(),
{
    if s.len() > 0 {
        lemma_seq_val_bound(s.drop_last());
        assert(s.drop_last().len() == s.len() - 1);
        let p = pow256((s.len() - 1) as nat);
        assert(seq_val(s.drop_last()) * 256 <= (p - 1) * 256) by (nonlinear_arith)
            requires
                seq_val(s.drop_last()) <= p - 1,
        ;
        assert(pow256(s.len()) == 256 * p);
    }
}

/// 256 to the power `n`, computed at run time for exponents that fit a `u64`.
pub fn pow256_u64(n: usize) -> (r: u64)
    requires
        n <= 7,
    ensures
        r == pow256(n as nat),
{
    proof {
        lemma_pow256_values();
    }
    let mut r: u64 = 1;
    let mut i: usize = 0;
    while i < n
        invariant
            i <= n <= 7,
            r == pow256(i as nat),
        decreases n - i,
    {
        proof {
            lemma_pow256_values();
            lemma_pow256_mono(i as nat, 6);
            assert(pow256((i + 1) as nat) == 256 * pow256(i as nat));
        }
        r = r * 256;
        i = i + 1;
    }
    r
}

/// Appends the `n`-byte big-endian encoding of `v` to `out`.
pub fn write_be_u64(out: &mut Vec<u8>, v: u64, n: usize)
    requires
        n <= 8,
    ensures
        final(out)@ == old(out)@ + be_seq(v as nat, n as nat),
{
    let ghost orig = out@;
    let mut j: usize = 0;
    while j < n
        invariant
            j <= n <= 8,
            out@ == orig + be_seq(v as nat, n as nat).take(j as int),
        decreases n - j,
    {
        let p = pow256_u64(n - 1 - j);
        proof {
            lemma_pow256_pos((n - 1 - j) as nat);
        }
        let b: u8 = ((v / p) % 256) as u8;
        out.push(b);
        proof {
            assert(be_seq(v as nat, n as nat)[j as int] == b);
            assert(be_seq(v as nat, n as nat).take(j + 1) =~= be_seq(v as nat, n as nat).take(
                j as int,
            ).push(b));
            assert(out@ =~= orig + be_seq(v as nat, n as nat).take(j + 1));
        }
        j = j + 1;
    }
    proof {
        assert(be_seq(v as nat, n as nat).take(n as int) =~= be_seq(v as nat, n as nat));
    }
}

/// Reads an `n`-byte big-endian value starting at index `i`.
pub fn read_be_u64(s: &Vec<u8>, i: usize, n: usize) -> (r: u64)
    requires
        n <= 8,
        i + n <= s.len(),
    ensures
        r == seq_val(s@.subrange(i as int, i as int + n as int)),
{
    proof {
        lemma_pow256_values();
    }
    let mut acc: u64 = 0;
    let mut j: usize = 0;
    while j < n
        invariant
            j <= n <= 8,
            i + n <= s.len(),
            acc == seq_val(s@.subrange(i as int, i as int + j as int)),
            acc < pow256(j as nat),
        decreases n - j,
    {
        let b = s[i + j];
        proof {
            lemma_pow256_values();
            lemma_pow256_mono(j as nat, 7);
            assert(acc * 256 <= (pow256(7) - 1) * 256) by (nonlinear_arith)
                requires
                    acc <= pow256(7) - 1,
            ;
            let sub1 = s@.subrange(i as int, i as int + j + 1);
            assert(sub1.drop_last() =~= s@.subrange(i as int, i as int + j as int));
            assert(sub1.last() == s@[i as int + j as int]);
            assert(seq_val(sub1) == acc * 256 + b);
            assert(acc * 256 + b < 256 * pow256(j as nat)) by (nonlinear_arith)
                requires
                    acc < pow256(j as nat),
                    b < 256,
            ;
            assert(pow256((j + 1) as nat) == 256 * pow256(j as nat));
        }
        acc = acc * 256 + (b as u64);
        j = j + 1;
    }
    acc
}

/// Reads the 16 bytes of a big-endian 128-bit identifier.
pub fn u128_from_be_16(b: &[u8; 16]) -> (r: u128)
    ensures
        r == seq_val(b@),
{
    proof {
        lemma_pow256_values();
    }
    let mut acc: u128 = 0;
    let mut j: usize = 0;
    while j < 16
        invariant
            j <= 16,
            acc == seq_val(b@.subrange(0, j as int)),
            acc < pow256(j as nat),
        decreases 16 - j,
    {
        let byte = b[j];
        proof {
            lemma_pow256_values();
            lemma_pow256_mono(j as nat, 15);
            assert(acc * 256 <= (pow256(15) - 1) * 256) by (nonlinear_arith)
                requires
                    acc <= pow256(15) - 1,
            ;
            let sub1 = b@.subrange(0, j + 1);
            assert(sub1.drop_last() =~= b@.subrange(0, j as int));
            assert(sub1.last() == b@[j as int]);
            assert(seq_val(sub1) == acc * 256 + byte);
            assert(acc * 256 + byte < 256 * pow256(j as nat)) by (nonlinear_arith)
                requires
                    acc < pow256(j as nat),
                    byte < 256,
            ;
            assert(pow256((j + 1) as nat) == 256 * pow256(j as nat));
        }
        acc = acc * 256 + (byte as u128);
        j = j + 1;
    }
    proof {
        assert(b@.subrange(0, 16) =~= b@);
    }
    acc
}

/// The low 64-bit word of a 128-bit trace identifier.
pub open spec fn spec_low_word(v: u128) -> u64 {
    (v % 0x10000000000000000) as u64
}

/// The high 64-bit word of a 128-bit trace identifier.
pub open spec fn spec_high_word(v: u128) -> u64 {
    (v / 0x10000000000000000) as u64
}

/// The 128-bit trace identifier rebuilt from its two 64-bit words.
pub open spec fn spec_join_words(low: u64, high: u64) -> u128 {
    (low + high * 0x10000000000000000) as u128
}

/// Splits a 128-bit trace identifier into its low and high 64-bit words.
pub fn split_trace_id(v: u128) -> (r: [u64; 2])
    ensures
        r@[0] == spec_low_word(v),
        r@[1] == spec_high_word(v),
{
    let low: u64 = (v % 0x10000000000000000) as u64;
    let high: u64 = (v / 0x10000000000000000) as u64;
    let r = [low, high];
    r
}

/// Rebuilds a 128-bit trace identifier from its low and high 64-bit words.
pub fn join_trace_id(low: u64, high: u64) -> (r: u128)
    ensures
        r == spec_join_words(low, high),
{
    (low as u128) + (high as u128) * 0x10000000000000000u128
}

/// Joining the split words of any 128-bit value gives the value back.
pub proof fn lemma_join_split(v: u128)
    ensures
        spec_join_words(spec_low_word(v), spec_high_word(v)) == v,
{
    lemma_fundamental_div_mod(v as int, 0x10000000000000000);
}

/// Splitting a joined pair of words gives the words back.
pub proof fn lemma_split_join(low: u64, high: u64)
    ensures
        spec_low_word(spec_join_words(low, high)) == low,
        spec_high_word(spec_join_words(low, high)) == high,
{
    lemma_fundamental_div_mod_converse(
        low + high * 0x10000000000000000,
        0x10000000000000000,
        high as int,
        low as int,
    );
}

} // verus!
