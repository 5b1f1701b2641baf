//! A compact, self-describing binary layer: each item is a one-byte head
//! (a three-bit major kind and a five-bit argument) followed, for larger
//! arguments, by the argument in big-endian bytes. Byte strings carry their
//! length in the head; record fields are framed as key/value pairs under a
//! map head. Decoding never guesses: every length is checked against the
//! remaining buffer.

use crate::bytes::{
    be_seq, lemma_pow256_values, lemma_seq_val_be_seq, lemma_seq_val_bound, pow256, read_be_u64,
    seq_val, write_be_u64,
};
use vstd::arithmetic::div_mod::lemma_fundamental_div_mod_converse;
use vstd::prelude::*;

verus! {

/// Major kinds: unsigned integer, negative integer, byte string, map, simple.
pub open spec fn spec_head(major: u8, v: u64) -> Seq<u8>
    recommends
        major < 8,
{
    if v < 24 {
        seq![(major * 32 + v) as u8]
    } else if v < 256 {
        seq![(major * 32 + 24) as u8] + be_seq(v as nat, 1)
    } else if v < 65536 {
        seq![(major * 32 + 25) as u8] + be_seq(v as nat, 2)
    } else if v < 4294967296 {
        seq![(major * 32 + 26) as u8] + be_seq(v as nat, 4)
    } else {
        seq![(major * 32 + 27) as u8] + be_seq(v as nat, 8)
    }
}

/// The single byte that encodes the absence of a value.
pub open spec fn spec_null() -> Seq<u8> {
    seq![246u8]
}

/// Reads a head at position `i`: the major kind, the argument, and the
/// position just past the head. `None` when the buffer is too short or the
/// argument form is not one this format emits.
pub open spec fn spec_dec_head(s: Seq<u8>, i: int) -> Option<(u8, u64, int)> {
    if 0 <= i < s.len() {
        let b = s[i];
        let major = b / 32;
        let ai = b % 32;
        if ai < 24 {
            Some((major, ai as u64, i + 1))
        } else if ai == 24 && i + 2 <= s.len() {
            Some((major, seq_val(s.subrange(i + 1, i + 2)) as u64, i + 2))
        } else if ai == 25 && i + 3 <= s.len() {
            Some((major, seq_val(s.subrange(i + 1, i + 3)) as u64, i + 3))
        } else if ai == 26 && i + 5 <= s.len() {
            Some((major, seq_val(s.subrange(i + 1, i + 5)) as u64, i + 5))
        } else if ai == 27 && i + 9 <= s.len() {
            Some((major, seq_val(s.subrange(i + 1, i + 9)) as u64, i + 9))
        } else {
            None
        }
    } else {
        None
    }
}

/// A head embedded in a larger buffer decodes to exactly what was encoded.
pub proof fn lemma_head_round(major: u8, v: u64, s: Seq<u8>, i: int)
    requires
        major < 8,
        0 <= i,
        i + spec_head(major, v).len() <= s.len(),
        s.subrange(i, i + spec_head(major, v).len() as int) =~= spec_head(major, v),
    ensures
        spec_dec_head(s, i) == Some((major, v, i + spec_head(major, v).len() as int)),
{
    let e = spec_head(major, v);
    lemma_pow256_values();
    assert(s[i] == e[0]);
    let n: nat = if v < 24 {
        0
    } else if v < 256 {
        1
    } else if v < 65536 {
        2
    } else if v < 4294967296 {
        4
    } else {
        8
    };
    let ai: u8 = if v < 24 {
        v as u8
    } else if v < 256 {
        24
    } else if v < 65536 {
        25
    } else if v < 4294967296 {
        26
    } else {
        27
    };
    assert(e[0] == (major * 32 + ai) as u8);
    lemma_fundamental_div_mod_converse(
        (major * 32 + ai) as int,
        32,
        major as int,
        ai as int,
    );
    if v < 24 {
        assert(spec_dec_head(s, i) == Some((major, ai as u64, i + 1)));
    } else {
        assert(e.len() == 1 + n);
        assert(s.subrange(i + 1, i + 1 + n as int) =~= e.subrange(1, 1 + n as int));
        assert(e.subrange(1, 1 + n as int) =~= be_seq(v as nat, n));
        assert(v < pow256(n));
        lemma_seq_val_be_seq(v as nat, n);
        assert(seq_val(s.subrange(i + 1, i + 1 + n as int)) == v);
    }
}

/// Writes a head for the given major kind and argument.
pub fn push_head(out: &mut Vec<u8>, major: u8, v: u64)
    requires
        major < 8,
    ensures
        final(out)@ == old(out)@ + spec_head(major, v),
{
    let ghost orig = out@;
    if v < 24 {
        out.push(major * 32 + (v as u8));
        proof {
            assert(out@ =~= orig + spec_head(major, v));
        }
    } else if v < 256 {
        out.push(major * 32 + 24);
        write_be_u64(out, v, 1);
        proof {
            assert(out@ =~= orig + spec_head(major, v));
        }
    } else if v < 65536 {
        out.push(major * 32 + 25);
        write_be_u64(out, v, 2);
        proof {
            assert(out@ =~= orig + spec_head(major, v));
        }
    } else if v < 4294967296 {
        out.push(major * 32 + 26);
        write_be_u64(out, v, 4);
        proof {
            assert(out@ =~= orig + spec_head(major, v));
        }
    } else {
        out.push(major * 32 + 27);
        write_be_u64(out, v, 8);
        proof {
            assert(out@ =~= orig + spec_head(major, v));
        }
    }
}

/// Writes the single byte that stands for an absent value.
pub fn push_null(out: &mut Vec<u8>)
    ensures
        final(out)@ == old(out)@ + spec_null(),
{
    let ghost orig = out@;
    out.push(246u8);
    proof {
        assert(out@ =~= orig + spec_null());
    }
}

/// Reads a head at position `i`, as `spec_dec_head` describes it.
pub fn read_head(s: &Vec<u8>, i: usize) -> (r: Option<(u8, u64, usize)>)
    ensures
        match r {
            Some(t) => spec_dec_head(s@, i as int) == Some((t.0, t.1, t.2 as int)) && t.2
                <= s.len() && i < t.2,
            None => spec_dec_head(s@, i as int) is None,
        },
{
    if i >= s.len() {
        return None;
    }
    let b = s[i];
    let major = b / 32;
    let ai = b % 32;
    if ai < 24 {
        Some((major, ai as u64, i + 1))
    } else if ai >= 28 {
        None
    } else {
        let n: usize = if ai == 24 {
            1
        } else if ai == 25 {
            2
        } else if ai == 26 {
            4
        } else {
            8
        };
        if s.len() - i >= n + 1 {
            let v = read_be_u64(s, i + 1, n);
            proof {
                lemma_seq_val_bound(s@.subrange(i + 1, i + 1 + n as int));
                lemma_pow256_values();
                crate::bytes::lemma_pow256_mono(n as nat, 8);
            }
            Some((major, v, i + 1 + n))
        } else {
            None
        }
    }
}

/// An unsigned integer: a head of major kind 0.
pub open spec fn spec_enc_uint(v: u64) -> Seq<u8> {
    spec_head(0, v)
}

pub open spec fn spec_dec_uint(s: Seq<u8>, i: int) -> Option<(u64, int)> {
    match spec_dec_head(s, i) {
        Some((major, v, j)) => if major == 0 {
            Some((v, j))
        } else {
            None
        },
        None => None,
    }
}

pub proof fn lemma_uint_round(v: u64, s: Seq<u8>, i: int)
    requires
        0 <= i,
        i + spec_enc_uint(v).len() <= s.len(),
        s.subrange(i, i + spec_enc_uint(v).len() as int) =~= spec_enc_uint(v),
    ensures
        spec_dec_uint(s, i) == Some((v, i + spec_enc_uint(v).len() as int)),
{
    lemma_head_round(0, v, s, i);
}

pub fn push_uint(out: &mut Vec<u8>, v: u64)
    ensures
        final(out)@ == old(out)@ + spec_enc_uint(v),
{
    push_head(out, 0, v);
}

pub fn read_uint(s: &Vec<u8>, i: usize) -> (r: Option<(u64, usize)>)
    ensures
        match r {
            Some(t) => spec_dec_uint(s@, i as int) == Some((t.0, t.1 as int)) && t.1 <= s.len()
                && i < t.1,
            None => spec_dec_uint(s@, i as int) is None,
        },
{
    match read_head(s, i) {
        Some((major, v, j)) => if major == 0 {
            Some((v, j))
        } else {
            None
        },
        None => None,
    }
}

/// A signed integer: major kind 0 for `v >= 0`, major kind 1 carrying
/// `-1 - v` otherwise.
pub open spec fn spec_enc_int(v: i64) -> Seq<u8> {
    if v >= 0 {
        spec_head(0, v as u64)
    } else {
        spec_head(1, (-1 - v) as u64)
    }
}

pub open spec fn spec_dec_int(s: Seq<u8>, i: int) -> Option<(i64, int)> {
    match spec_dec_head(s, i) {
        Some((major, v, j)) => if major == 0 && v <= i64::MAX as u64 {
            Some((v as i64, j))
        } else if major == 1 && v <= i64::MAX as u64 {
            Some(((-1 - v) as i64, j))
        } else {
            None
        },
        None => None,
    }
}

pub proof fn lemma_int_round(v: i64, s: Seq<u8>, i: int)
    requires
        0 <= i,
        i + spec_enc_int(v).len() <= s.len(),
        s.subrange(i, i + spec_enc_int(v).len() as int) =~= spec_enc_int(v),
    ensures
        spec_dec_int(s, i) == Some((v, i + spec_enc_int(v).len() as int)),
{
    if v >= 0 {
        lemma_head_round(0, v as u64, s, i);
    } else {
        lemma_head_round(1, (-1 - v) as u64, s, i);
    }
}

pub fn push_int(out: &mut Vec<u8>, v: i64)
    ensures
        final(out)@ == old(out)@ + spec_enc_int(v),
{
    if v >= 0 {
        push_head(out, 0, v as u64);
    } else {
        push_head(out, 1, ((-1 - (v as i128)) as u64));
    }
}

pub fn read_int(s: &Vec<u8>, i: usize) -> (r: Option<(i64, usize)>)
    ensures
        match r {
            Some(t) => spec_dec_int(s@, i as int) == Some((t.0, t.1 as int)) && t.1 <= s.len()
                && i < t.1,
            None => spec_dec_int(s@, i as int) is None,
        },
{
    match read_head(s, i) {
        Some((major, v, j)) => if major == 0 && v <= (i64::MAX as u64) {
            Some((v as i64, j))
        } else if major == 1 && v <= (i64::MAX as u64) {
            Some((((-1 - (v as i128)) as i64), j))
        } else {
            None
        },
        None => None,
    }
}

/// A byte string: a head of major kind 2 carrying the length, then the bytes.
pub open spec fn spec_enc_bytes(b: Seq<u8>) -> Seq<u8>
    recommends
        b.len() < pow256(8),
{
    spec_head(2, b.len() as u64) + b
}

pub open spec fn spec_dec_bytes(s: Seq<u8>, i: int) -> Option<(Seq<u8>, int)> {
    match spec_dec_head(s, i) {
        Some((major, l, j)) => if major == 2 && j + l <= s.len() {
            Some((s.subrange(j, j + l as int), j + l as int))
        } else {
            None
        },
        None => None,
    }
}

pub proof fn lemma_bytes_round(b: Seq<u8>, s: Seq<u8>, i: int)
    requires
        0 <= i,
        b.len() < pow256(8),
        i + spec_enc_bytes(b).len() <= s.len(),
        s.subrange(i, i + spec_enc_bytes(b).len() as int) =~= spec_enc_bytes(b),
    ensures
        spec_dec_bytes(s, i) == Some((b, i + spec_enc_bytes(b).len() as int)),
{
    lemma_pow256_values();
    let h = spec_head(2, b.len() as u64);
    let e = spec_enc_bytes(b);
    let hl = h.len() as int;
    let bl = b.len() as int;
    assert(e.len() == hl + bl);
    assert(s.subrange(i, i + hl) =~= h) by {
        assert forall|j: int| 0 <= j < hl implies s.subrange(i, i + hl)[j] == h[j] by {
            assert(s.subrange(i, i + e.len() as int)[j] == e[j]);
        }
    }
    lemma_head_round(2, b.len() as u64, s, i);
    assert(s.subrange(i + hl, i + hl + bl) =~= b) by {
        assert forall|j: int| 0 <= j < bl implies s.subrange(i + hl, i + hl + bl)[j] == b[j] by {
            assert(s.subrange(i, i + e.len() as int)[hl + j] == e[hl + j]);
        }
    }
}

pub fn push_bytes(out: &mut Vec<u8>, data: &Vec<u8>)
    ensures
        final(out)@ == old(out)@ + spec_enc_bytes(data@),
{
    let ghost orig = out@;
    push_head(out, 2, data.len() as u64);
    let mut k: usize = 0;
    while k < data.len()
        invariant
            k <= data.len(),
            out@ == orig + spec_head(2, data@.len() as u64) + data@.take(k as int),
        decreases data.len() - k,
    {
        out.push(data[k]);
        proof {
            assert(data@.take(k + 1) =~= data@.take(k as int).push(data@[k as int]));
            assert(out@ =~= orig + spec_head(2, data@.len() as u64) + data@.take(k + 1));
        }
        k = k + 1;
    }
    proof {
        assert(data@.take(data@.len() as int) =~= data@);
        assert(out@ =~= orig + spec_enc_bytes(data@));
    }
}

pub fn read_bytes(s: &Vec<u8>, i: usize) -> (r: Option<(Vec<u8>, usize)>)
    ensures
        match r {
            Some(t) => spec_dec_bytes(s@, i as int) == Some((t.0@, t.1 as int)) && t.1 <= s.len()
                && i < t.1,
            None => spec_dec_bytes(s@, i as int) is None,
        },
{
    match read_head(s, i) {
        Some((major, l, j)) => {
            if major != 2 {
                return None;
            }
            if l > (s.len() - j) as u64 {
                return None;
            }
            let l = l as usize;
            let mut data: Vec<u8> = Vec::new();
            let mut k: usize = 0;
            while k < l
        invariant
            k <= l,
            j + l <= s.len(),
            data@ == s@.subrange(j as int, j as int + k as int),
        decreases l - k,
            {
                data.push(s[j + k]);
                proof {
                    assert(s@.subrange(j as int, j as int + k + 1) =~= s@.subrange(
                        j as int,
                        j as int + k as int,
                    ).push(s@[j as int + k as int]));
                }
                k = k + 1;
            }
            Some((data, j + l))
        },
        None => None,
    }
}

/// A piece of an encoding embedded at offset `off` of a buffer slice is
/// embedded in the buffer at the corresponding absolute position.
pub proof fn lemma_embed_piece(s: Seq<u8>, i: int, e: Seq<u8>, off: int, p: Seq<u8>)
    requires
        0 <= i,
        i + e.len() <= s.len(),
        s.subrange(i, i + e.len() as int) =~= e,
        0 <= off,
        off + p.len() <= e.len(),
        e.subrange(off, off + p.len() as int) =~= p,
    ensures
        s.subrange(i + off, i + off + p.len() as int) =~= p,
{
    assert forall|j: int| 0 <= j < p.len() implies s.subrange(i + off, i + off + p.len() as int)[j]
        == p[j] by {
        assert(s.subrange(i, i + e.len() as int)[off + j] == e[off + j]);
        assert(e.subrange(off, off + p.len() as int)[j] == e[off + j]);
    }
}

/// Reads a value that may be absent: `None` exactly when the next byte is the
/// null byte.
pub open spec fn spec_is_null_at(s: Seq<u8>, i: int) -> bool {
    0 <= i < s.len() && s[i] == 246u8
}

pub fn is_null_at(s: &Vec<u8>, i: usize) -> (r: bool)
    ensures
        r == spec_is_null_at(s@, i as int),
{
    i < s.len() && s[i] == 246u8
}

} // verus!
