//! The identity and event model: instance addressing, the invocation event
//! envelope, distributed-tracing metadata, and the compact self-describing
//! binary encoding of all of them. Every record is framed as a map of small
//! integer field tags to values, so a decoder can reject malformed input
//! without guessing structure; decoding and encoding are exact inverses.

use crate::bytes::{
    be_seq, lemma_pow256_values, lemma_seq_val_bound, pow256, seq_val, spec_high_word,
    spec_low_word, split_trace_id, u128_from_be_16,
};
use crate::cbor::{
    is_null_at, lemma_bytes_round, lemma_embed_piece, lemma_head_round, lemma_int_round,
    lemma_uint_round, push_head, push_int, push_null, push_uint, read_head, read_int, read_uint,
    spec_dec_bytes, spec_dec_head, spec_dec_int, spec_dec_uint, spec_enc_bytes, spec_enc_int,
    spec_enc_uint, spec_head, spec_is_null_at, spec_null,
};
use crate::errors::CoreError;
use vstd::array::{spec_array_fill_for_copy_type, spec_array_update};
use vstd::prelude::*;

verus! {

broadcast use vstd::array::group_array_axioms;

/// Declares `opentelemetry::trace::SpanContext` so it can stand in the
/// signature of `EventMetadata::into_ctx`; the value is opaque here.
#[verifier::external_type_specification]
#[verifier::external_body]
pub struct ExSpanContext(opentelemetry::trace::SpanContext);

/// Addresses one function instance in the fleet: a 128-bit node identifier
/// and a 128-bit function identifier, both held as big-endian bytes.
#[derive(Clone, Copy, Debug, PartialEq, Eq)]
pub struct InstanceId {
    pub node_id: [u8; 16],
    pub function_id: [u8; 16],
}

/// Distributed-tracing context attached to an event: a 16-byte trace
/// identifier and a 64-bit span identifier.
#[derive(Clone, Debug, PartialEq)]
pub struct EventMetadata {
    pub trace_id: [u8; 16],
    pub span_id: u64,
}

/// The moment an event was created.
#[derive(Clone, Copy, Debug, PartialEq, Eq)]
pub struct EventTimestamp {
    pub secs: i64,
    pub nsecs: u32,
}

/// The invocation kinds: a call expecting a reply, a fire-and-forget cast,
/// a reply payload, a payload-less acknowledgement, and a failure signal.
#[derive(Clone, Debug, PartialEq)]
pub enum EventData<T> {
    Call(T),
    Cast(T),
    CallRet(T),
    CallNoRet,
    Error,
}

/// The invocation event envelope.
#[derive(Clone, Debug, PartialEq)]
pub struct Event<T> {
    pub target: InstanceId,
    pub source: InstanceId,
    pub stream_id: u64,
    pub metadata: Option<EventMetadata>,
    pub data: EventData<T>,
    pub created: EventTimestamp,
}

/// What a dataplane link did with an event it was handed.
#[allow(non_camel_case_types)]
#[derive(Debug, PartialEq, Eq)]
pub enum LinkProcessingResult {
    FINAL,
    PROCESSED,
    PASSED,
}

/// The 16-byte array holding the given byte sequence.
pub open spec fn arr16_of(s: Seq<u8>) -> [u8; 16] {
    choose|a: [u8; 16]| a@ == s
}

/// Every 16-byte sequence is the view of some 16-byte array, so `arr16_of`
/// really holds the given bytes.
pub proof fn lemma_arr16_of(s: Seq<u8>)
    requires
        s.len() == 16,
    ensures
        arr16_of(s)@ == s,
{
    let a0: [u8; 16] = spec_array_fill_for_copy_type::<u8, 16>(0u8);
    let a1 = spec_array_update(a0, 0, s[0]);
    let a2 = spec_array_update(a1, 1, s[1]);
    let a3 = spec_array_update(a2, 2, s[2]);
    let a4 = spec_array_update(a3, 3, s[3]);
    let a5 = spec_array_update(a4, 4, s[4]);
    let a6 = spec_array_update(a5, 5, s[5]);
    let a7 = spec_array_update(a6, 6, s[6]);
    let a8 = spec_array_update(a7, 7, s[7]);
    let a9 = spec_array_update(a8, 8, s[8]);
    let a10 = spec_array_update(a9, 9, s[9]);
    let a11 = spec_array_update(a10, 10, s[10]);
    let a12 = spec_array_update(a11, 11, s[11]);
    let a13 = spec_array_update(a12, 12, s[12]);
    let a14 = spec_array_update(a13, 13, s[13]);
    let a15 = spec_array_update(a14, 14, s[14]);
    let a16 = spec_array_update(a15, 15, s[15]);
    assert(a16@ =~= s);
    assert(arr16_of(s)@ == s);
}

/// Copies the 16 bytes of `v` starting at `from` into an array.
fn copy_arr16(v: &Vec<u8>, from: usize) -> (r: [u8; 16])
    requires
        from + 16 <= v.len(),
    ensures
        r@ == v@.subrange(from as int, from as int + 16),
{
    let mut r: [u8; 16] = [0u8; 16];
    let mut k: usize = 0;
    while k < 16
        invariant
            k <= 16,
            from + 16 <= v.len(),
            forall|j: int| 0 <= j < k ==> r@[j] == v@[from + j],
        decreases 16 - k,
    {
        r[k] = v[from + k];
        k = k + 1;
    }
    proof {
        assert(r@ =~= v@.subrange(from as int, from as int + 16));
    }
    r
}

// ---------------------------------------------------------------------------
// Field tags. Stable on the wire; renumbering is a breaking change.
// ---------------------------------------------------------------------------

/// A 16-byte identifier field: a byte string of exactly 16 bytes.
pub open spec fn spec_dec_id16(s: Seq<u8>, i: int) -> Option<(Seq<u8>, int)> {
    match spec_dec_bytes(s, i) {
        Some((b, j)) => if b.len() == 16 {
            Some((b, j))
        } else {
            None
        },
        None => None,
    }
}

// ---------------------------------------------------------------------------
// EventMetadata encoding: { 0: trace_id bytes, 1: span_id }
// ---------------------------------------------------------------------------

pub open spec fn spec_enc_meta(m: EventMetadata) -> Seq<u8> {
    spec_head(5, 2) + spec_enc_uint(0) + spec_enc_bytes(m.trace_id@) + spec_enc_uint(1)
        + spec_enc_uint(m.span_id)
}

pub open spec fn spec_dec_meta(s: Seq<u8>, i: int) -> Option<(EventMetadata, int)> {
    match spec_dec_head(s, i) {
        Some((major, cnt, i1)) => if major == 5 && cnt == 2 {
            match spec_dec_uint(s, i1) {
                Some((k0, i2)) => if k0 == 0 {
                    match spec_dec_id16(s, i2) {
                        Some((tb, i3)) => match spec_dec_uint(s, i3) {
                            Some((k1, i4)) => if k1 == 1 {
                                match spec_dec_uint(s, i4) {
                                    Some((sp, i5)) => Some(
                                        (EventMetadata { trace_id: arr16_of(tb), span_id: sp }, i5),
                                    ),
                                    None => None,
                                }
                            } else {
                                None
                            },
                            None => None,
                        },
                        None => None,
                    }
                } else {
                    None
                },
                None => None,
            }
        } else {
            None
        },
        None => None,
    }
}

/// Tracing metadata embedded in a larger buffer decodes to exactly what was
/// encoded.
pub proof fn lemma_meta_round(m: EventMetadata, s: Seq<u8>, i: int)
    requires
        0 <= i,
        i + spec_enc_meta(m).len() <= s.len(),
        s.subrange(i, i + spec_enc_meta(m).len() as int) =~= spec_enc_meta(m),
    ensures
        spec_dec_meta(s, i) == Some((m, i + spec_enc_meta(m).len() as int)),
{
    lemma_pow256_values();
    let e = spec_enc_meta(m);
    let h = spec_head(5, 2);
    let k0 = spec_enc_uint(0);
    let tb = spec_enc_bytes(m.trace_id@);
    let k1 = spec_enc_uint(1);
    let sp = spec_enc_uint(m.span_id);
    let o1 = h.len() as int;
    let o2 = o1 + k0.len();
    let o3 = o2 + tb.len();
    let o4 = o3 + k1.len();
    assert(e.len() == o4 + sp.len());
    assert(e.subrange(0, o1) =~= h);
    assert(e.subrange(o1, o2) =~= k0);
    assert(e.subrange(o2, o3) =~= tb);
    assert(e.subrange(o3, o4) =~= k1);
    assert(e.subrange(o4, e.len() as int) =~= sp);
    lemma_embed_piece(s, i, e, 0, h);
    lemma_head_round(5, 2, s, i);
    lemma_embed_piece(s, i, e, o1, k0);
    lemma_uint_round(0, s, i + o1);
    lemma_embed_piece(s, i, e, o2, tb);
    lemma_bytes_round(m.trace_id@, s, i + o2);
    lemma_embed_piece(s, i, e, o3, k1);
    lemma_uint_round(1, s, i + o3);
    lemma_embed_piece(s, i, e, o4, sp);
    lemma_uint_round(m.span_id, s, i + o4);
    lemma_arr16_of(m.trace_id@);
    assert(arr16_of(m.trace_id@) =~= m.trace_id);
}

/// Appends a 16-byte identifier as a byte-string field.
pub fn push_id16(out: &mut Vec<u8>, b: &[u8; 16])
    ensures
        final(out)@ == old(out)@ + spec_enc_bytes(b@),
{
    let ghost orig = out@;
    push_head(out, 2, 16);
    let mut k: usize = 0;
    while k < 16
        invariant
            k <= 16,
            out@ == orig + spec_head(2, 16) + b@.take(k as int),
        decreases 16 - k,
    {
        let x = b[k];
        out.push(x);
        proof {
            assert(b@.take(k + 1) =~= b@.take(k as int).push(x));
            assert(out@ =~= orig + spec_head(2, 16) + b@.take(k + 1));
        }
        k = k + 1;
    }
    proof {
        assert(b@.take(16) =~= b@);
        assert(out@ =~= orig + spec_enc_bytes(b@));
    }
}

/// Reads a 16-byte identifier field, as `spec_dec_id16` describes it.
pub fn read_id16(s: &Vec<u8>, i: usize) -> (r: Option<([u8; 16], usize)>)
    ensures
        match r {
            Some(t) => spec_dec_id16(s@, i as int) == Some((t.0@, t.1 as int)) && t.1 <= s.len()
                && i < t.1,
            None => spec_dec_id16(s@, i as int) is None,
        },
{
    let (major, tlen, j) = match read_head(s, i) {
        Some(t) => t,
        None => {
            return None;
        },
    };
    if major != 2 {
        return None;
    }
    if tlen != 16 {
        return None;
    }
    if (s.len() - j) < 16 {
        return None;
    }
    let id = copy_arr16(s, j);
    proof {
        assert(spec_dec_bytes(s@, i as int) == Some(
            (s@.subrange(j as int, j as int + 16), j + 16 as int),
        ));
    }
    Some((id, j + 16))
}

/// Appends the encoding of tracing metadata.
pub fn push_metadata(out: &mut Vec<u8>, m: &EventMetadata)
    ensures
        final(out)@ == old(out)@ + spec_enc_meta(*m),
{
    let ghost orig = out@;
    push_head(out, 5, 2);
    push_uint(out, 0);
    push_id16(out, &m.trace_id);
    push_uint(out, 1);
    push_uint(out, m.span_id);
    proof {
        assert(out@ =~= orig + spec_enc_meta(*m));
    }
}

/// Reads tracing metadata at position `i`, as `spec_dec_meta` describes it.
pub fn read_metadata(s: &Vec<u8>, i: usize) -> (r: Option<(EventMetadata, usize)>)
    ensures
        match r {
            Some(t) => spec_dec_meta(s@, i as int) == Some((t.0, t.1 as int)) && t.1 <= s.len()
                && i < t.1,
            None => spec_dec_meta(s@, i as int) is None,
        },
{
    let (major, cnt, i1) = match read_head(s, i) {
        Some(t) => t,
        None => {
            return None;
        },
    };
    if major != 5 || cnt != 2 {
        return None;
    }
    let (k0, i2) = match read_uint(s, i1) {
        Some(t) => t,
        None => {
            return None;
        },
    };
    if k0 != 0 {
        return None;
    }
    let (trace_id, i3) = match read_id16(s, i2) {
        Some(t) => t,
        None => {
            return None;
        },
    };
    proof {
        lemma_arr16_of(trace_id@);
        assert(arr16_of(trace_id@) =~= trace_id);
    }
    let (k1, i4) = match read_uint(s, i3) {
        Some(t) => t,
        None => {
            return None;
        },
    };
    if k1 != 1 {
        return None;
    }
    let (sp, i5) = match read_uint(s, i4) {
        Some(t) => t,
        None => {
            return None;
        },
    };
    Some((EventMetadata { trace_id, span_id: sp }, i5))
}

impl EventMetadata {
    /// Builds metadata from a 16-byte trace identifier and a span identifier.
    pub fn new(trace_id: &[u8; 16], span_id: u64) -> (r: Self)
        ensures
            r.trace_id == *trace_id,
            r.span_id == span_id,
    {
        Self { trace_id: *trace_id, span_id }
    }

    /// Builds metadata from a 128-bit trace identifier and a span identifier;
    /// the identifier is held big-endian.
    pub fn from(trace_id: u128, span_id: u64) -> (r: Self)
        ensures
            r.trace_id@ == be_seq(trace_id as nat, 16),
            r.span_id == span_id,
    {
        Self::new(&Self::convert(trace_id), span_id)
    }

    /// Relies on `opentelemetry::trace::TraceId`: `TraceId::from(u128)` keeps
    /// the value and `to_bytes` returns its big-endian byte representation.
    #[verifier::external_body]
    pub fn convert(trace_id: u128) -> (r: [u8; 16])
        ensures
            r@ == be_seq(trace_id as nat, 16),
    {
        let a = opentelemetry::trace::TraceId::from(trace_id);
        a.to_bytes()
    }

    /// The two 64-bit halves of the trace identifier, low word first, for
    /// ABIs without a 128-bit scalar.
    pub fn to_words(&self) -> (r: [u64; 2])
        ensures
            r@[0] == spec_low_word(seq_val(self.trace_id@) as u128),
            r@[1] == spec_high_word(seq_val(self.trace_id@) as u128),
    {
        proof {
            lemma_seq_val_bound(self.trace_id@);
            lemma_pow256_values();
        }
        let tmp = u128_from_be_16(&self.trace_id);
        let words = split_trace_id(tmp);
        words
    }

    /// Relies on `opentelemetry::trace::SpanContext::new`: builds the span
    /// context carrying this trace identifier and span identifier, marked
    /// sampled and remote, with no trace state.
    #[verifier::external_body]
    pub fn into_ctx(&self) -> opentelemetry::trace::SpanContext {
        let t = opentelemetry::trace::TraceId::from_bytes(self.trace_id);
        let s = opentelemetry::trace::SpanId::from(self.span_id);
        let tf = opentelemetry::trace::TraceFlags::SAMPLED;
        let ts = opentelemetry::trace::TraceState::NONE;
        opentelemetry::trace::SpanContext::new(t, s, tf, true, ts)
    }

    /// Encodes this metadata record on its own.
    pub fn encode(&self) -> (r: Vec<u8>)
        ensures
            r@ == spec_enc_meta(*self),
    {
        let mut out: Vec<u8> = Vec::new();
        push_metadata(&mut out, self);
        out
    }

    /// Decodes a metadata record, requiring the whole buffer to be consumed.
    pub fn decode(s: &Vec<u8>) -> (r: Result<Self, CoreError>)
        ensures
            match r {
                Ok(m) => spec_dec_meta(s@, 0) == Some((m, s@.len() as int)),
                Err(e) => e == CoreError::MalformedEncoding && match spec_dec_meta(s@, 0) {
                    Some(t) => t.1 != s@.len(),
                    None => true,
                },
            },
    {
        match read_metadata(s, 0) {
            Some((m, j)) => if j == s.len() {
                Ok(m)
            } else {
                Err(CoreError::MalformedEncoding)
            },
            None => Err(CoreError::MalformedEncoding),
        }
    }
}

/// Metadata decodes back to itself: the round trip through the wire encoding
/// is the identity.
pub proof fn lemma_metadata_round_trip(m: EventMetadata)
    ensures
        spec_dec_meta(spec_enc_meta(m), 0) == Some((m, spec_enc_meta(m).len() as int)),
{
    let e = spec_enc_meta(m);
    assert(e.subrange(0, e.len() as int) =~= e);
    lemma_meta_round(m, e, 0);
}

// ---------------------------------------------------------------------------
// InstanceId encoding: { 0: node_id bytes, 1: function_id bytes }
// ---------------------------------------------------------------------------

pub open spec fn spec_enc_iid(id: InstanceId) -> Seq<u8> {
    spec_head(5, 2) + spec_enc_uint(0) + spec_enc_bytes(id.node_id@) + spec_enc_uint(1)
        + spec_enc_bytes(id.function_id@)
}

pub open spec fn spec_dec_iid(s: Seq<u8>, i: int) -> Option<(InstanceId, int)> {
    match spec_dec_head(s, i) {
        Some((major, cnt, i1)) => if major == 5 && cnt == 2 {
            match spec_dec_uint(s, i1) {
                Some((k0, i2)) => if k0 == 0 {
                    match spec_dec_id16(s, i2) {
                        Some((nb, i3)) => match spec_dec_uint(s, i3) {
                            Some((k1, i4)) => if k1 == 1 {
                                match spec_dec_id16(s, i4) {
                                    Some((fb, i5)) => Some(
                                        (
                                            InstanceId {
                                                node_id: arr16_of(nb),
                                                function_id: arr16_of(fb),
                                            },
                                            i5,
                                        ),
                                    ),
                                    None => None,
                                }
                            } else {
                                None
                            },
                            None => None,
                        },
                        None => None,
                    }
                } else {
                    None
                },
                None => None,
            }
        } else {
            None
        },
        None => None,
    }
}

/// An instance identifier embedded in a larger buffer decodes to exactly what
/// was encoded.
pub proof fn lemma_iid_round(id: InstanceId, s: Seq<u8>, i: int)
    requires
        0 <= i,
        i + spec_enc_iid(id).len() <= s.len(),
        s.subrange(i, i + spec_enc_iid(id).len() as int) =~= spec_enc_iid(id),
    ensures
        spec_dec_iid(s, i) == Some((id, i + spec_enc_iid(id).len() as int)),
{
    lemma_pow256_values();
    let e = spec_enc_iid(id);
    let h = spec_head(5, 2);
    let k0 = spec_enc_uint(0);
    let nb = spec_enc_bytes(id.node_id@);
    let k1 = spec_enc_uint(1);
    let fb = spec_enc_bytes(id.function_id@);
    let o1 = h.len() as int;
    let o2 = o1 + k0.len();
    let o3 = o2 + nb.len();
    let o4 = o3 + k1.len();
    assert(e.len() == o4 + fb.len());
    assert(e.subrange(0, o1) =~= h);
    assert(e.subrange(o1, o2) =~= k0);
    assert(e.subrange(o2, o3) =~= nb);
    assert(e.subrange(o3, o4) =~= k1);
    assert(e.subrange(o4, e.len() as int) =~= fb);
    lemma_embed_piece(s, i, e, 0, h);
    lemma_head_round(5, 2, s, i);
    lemma_embed_piece(s, i, e, o1, k0);
    lemma_uint_round(0, s, i + o1);
    lemma_embed_piece(s, i, e, o2, nb);
    lemma_bytes_round(id.node_id@, s, i + o2);
    lemma_embed_piece(s, i, e, o3, k1);
    lemma_uint_round(1, s, i + o3);
    lemma_embed_piece(s, i, e, o4, fb);
    lemma_bytes_round(id.function_id@, s, i + o4);
    lemma_arr16_of(id.node_id@);
    assert(arr16_of(id.node_id@) =~= id.node_id);
    lemma_arr16_of(id.function_id@);
    assert(arr16_of(id.function_id@) =~= id.function_id);
}

/// Appends the encoding of an instance identifier.
pub fn push_instance_id(out: &mut Vec<u8>, id: &InstanceId)
    ensures
        final(out)@ == old(out)@ + spec_enc_iid(*id),
{
    let ghost orig = out@;
    push_head(out, 5, 2);
    push_uint(out, 0);
    push_id16(out, &id.node_id);
    push_uint(out, 1);
    push_id16(out, &id.function_id);
    proof {
        assert(out@ =~= orig + spec_enc_iid(*id));
    }
}

/// Reads an instance identifier at position `i`.
pub fn read_instance_id(s: &Vec<u8>, i: usize) -> (r: Option<(InstanceId, usize)>)
    ensures
        match r {
            Some(t) => spec_dec_iid(s@, i as int) == Some((t.0, t.1 as int)) && t.1 <= s.len() && i
                < t.1,
            None => spec_dec_iid(s@, i as int) is None,
        },
{
    let (major, cnt, i1) = match read_head(s, i) {
        Some(t) => t,
        None => {
            return None;
        },
    };
    if major != 5 || cnt != 2 {
        return None;
    }
    let (k0, i2) = match read_uint(s, i1) {
        Some(t) => t,
        None => {
            return None;
        },
    };
    if k0 != 0 {
        return None;
    }
    let (node_id, i3) = match read_id16(s, i2) {
        Some(t) => t,
        None => {
            return None;
        },
    };
    let (k1, i4) = match read_uint(s, i3) {
        Some(t) => t,
        None => {
            return None;
        },
    };
    if k1 != 1 {
        return None;
    }
    let (function_id, i5) = match read_id16(s, i4) {
        Some(t) => t,
        None => {
            return None;
        },
    };
    proof {
        lemma_arr16_of(node_id@);
        assert(arr16_of(node_id@) =~= node_id);
        lemma_arr16_of(function_id@);
        assert(arr16_of(function_id@) =~= function_id);
    }
    Some((InstanceId { node_id, function_id }, i5))
}

// ---------------------------------------------------------------------------
// EventTimestamp encoding: { 0: secs, 1: nsecs }
// ---------------------------------------------------------------------------

pub open spec fn spec_enc_ts(t: EventTimestamp) -> Seq<u8> {
    spec_head(5, 2) + spec_enc_uint(0) + spec_enc_int(t.secs) + spec_enc_uint(1) + spec_enc_uint(
        t.nsecs as u64,
    )
}

pub open spec fn spec_dec_ts(s: Seq<u8>, i: int) -> Option<(EventTimestamp, int)> {
    match spec_dec_head(s, i) {
        Some((major, cnt, i1)) => if major == 5 && cnt == 2 {
            match spec_dec_uint(s, i1) {
                Some((k0, i2)) => if k0 == 0 {
                    match spec_dec_int(s, i2) {
                        Some((secs, i3)) => match spec_dec_uint(s, i3) {
                            Some((k1, i4)) => if k1 == 1 {
                                match spec_dec_uint(s, i4) {
                                    Some((ns, i5)) => if ns <= u32::MAX as u64 {
                                        Some((EventTimestamp { secs, nsecs: ns as u32 }, i5))
                                    } else {
                                        None
                                    },
                                    None => None,
                                }
                            } else {
                                None
                            },
                            None => None,
                        },
                        None => None,
                    }
                } else {
                    None
                },
                None => None,
            }
        } else {
            None
        },
        None => None,
    }
}

/// A timestamp embedded in a larger buffer decodes to exactly what was
/// encoded.
pub proof fn lemma_ts_round(t: EventTimestamp, s: Seq<u8>, i: int)
    requires
        0 <= i,
        i + spec_enc_ts(t).len() <= s.len(),
        s.subrange(i, i + spec_enc_ts(t).len() as int) =~= spec_enc_ts(t),
    ensures
        spec_dec_ts(s, i) == Some((t, i + spec_enc_ts(t).len() as int)),
{
    let e = spec_enc_ts(t);
    let h = spec_head(5, 2);
    let k0 = spec_enc_uint(0);
    let sec = spec_enc_int(t.secs);
    let k1 = spec_enc_uint(1);
    let ns = spec_enc_uint(t.nsecs as u64);
    let o1 = h.len() as int;
    let o2 = o1 + k0.len();
    let o3 = o2 + sec.len();
    let o4 = o3 + k1.len();
    assert(e.len() == o4 + ns.len());
    assert(e.subrange(0, o1) =~= h);
    assert(e.subrange(o1, o2) =~= k0);
    assert(e.subrange(o2, o3) =~= sec);
    assert(e.subrange(o3, o4) =~= k1);
    assert(e.subrange(o4, e.len() as int) =~= ns);
    lemma_embed_piece(s, i, e, 0, h);
    lemma_head_round(5, 2, s, i);
    lemma_embed_piece(s, i, e, o1, k0);
    lemma_uint_round(0, s, i + o1);
    lemma_embed_piece(s, i, e, o2, sec);
    lemma_int_round(t.secs, s, i + o2);
    lemma_embed_piece(s, i, e, o3, k1);
    lemma_uint_round(1, s, i + o3);
    lemma_embed_piece(s, i, e, o4, ns);
    lemma_uint_round(t.nsecs as u64, s, i + o4);
}

/// Appends the encoding of a timestamp.
pub fn push_timestamp(out: &mut Vec<u8>, t: &EventTimestamp)
    ensures
        final(out)@ == old(out)@ + spec_enc_ts(*t),
{
    let ghost orig = out@;
    push_head(out, 5, 2);
    push_uint(out, 0);
    push_int(out, t.secs);
    push_uint(out, 1);
    push_uint(out, t.nsecs as u64);
    proof {
        assert(out@ =~= orig + spec_enc_ts(*t));
    }
}

/// Reads a timestamp at position `i`.
pub fn read_timestamp(s: &Vec<u8>, i: usize) -> (r: Option<(EventTimestamp, usize)>)
    ensures
        match r {
            Some(t) => spec_dec_ts(s@, i as int) == Some((t.0, t.1 as int)) && t.1 <= s.len() && i
                < t.1,
            None => spec_dec_ts(s@, i as int) is None,
        },
{
    let (major, cnt, i1) = match read_head(s, i) {
        Some(t) => t,
        None => {
            return None;
        },
    };
    if major != 5 || cnt != 2 {
        return None;
    }
    let (k0, i2) = match read_uint(s, i1) {
        Some(t) => t,
        None => {
            return None;
        },
    };
    if k0 != 0 {
        return None;
    }
    let (secs, i3) = match read_int(s, i2) {
        Some(t) => t,
        None => {
            return None;
        },
    };
    let (k1, i4) = match read_uint(s, i3) {
        Some(t) => t,
        None => {
            return None;
        },
    };
    if k1 != 1 {
        return None;
    }
    let (ns, i5) = match read_uint(s, i4) {
        Some(t) => t,
        None => {
            return None;
        },
    };
    if ns > u32::MAX as u64 {
        return None;
    }
    Some((EventTimestamp { secs, nsecs: ns as u32 }, i5))
}

// ---------------------------------------------------------------------------
// Payloads
// ---------------------------------------------------------------------------

/// A payload type that can cross the wire inside an event. The round-trip
/// obligation makes every payload type round-trip-safe: decoding an encoded
/// payload gives the payload back, and the encoding fits the length framing.
pub trait EventPayload: Sized {
    /// The bytes this payload puts on the wire.
    spec fn payload_bytes(&self) -> Seq<u8>;

    /// The payload read back from wire bytes, if they are well formed.
    spec fn payload_of(b: Seq<u8>) -> Option<Self>;

    /// Decoding an encoded payload gives the payload back, and the encoding
    /// fits in a length-framed field.
    proof fn lemma_payload_round_trip(&self)
        ensures
            Self::payload_of(self.payload_bytes()) == Some(*self),
            self.payload_bytes().len() < pow256(8),
    ;

    /// Encodes this payload.
    fn encode_payload(&self) -> (r: Vec<u8>)
        ensures
            r@ == self.payload_bytes(),
    ;

    /// Decodes a payload from wire bytes.
    fn decode_payload(b: &Vec<u8>) -> (r: Option<Self>)
        ensures
            r == Self::payload_of(b@),
    ;
}

impl EventPayload for u64 {
    open spec fn payload_bytes(&self) -> Seq<u8> {
        spec_enc_uint(*self)
    }

    open spec fn payload_of(b: Seq<u8>) -> Option<u64> {
        match spec_dec_uint(b, 0) {
            Some((v, j)) => if j == b.len() {
                Some(v)
            } else {
                None
            },
            None => None,
        }
    }

    proof fn lemma_payload_round_trip(&self) {
        let e = spec_enc_uint(*self);
        assert(e.subrange(0, e.len() as int) =~= e);
        lemma_uint_round(*self, e, 0);
        lemma_pow256_values();
    }

    fn encode_payload(&self) -> (r: Vec<u8>) {
        let mut out: Vec<u8> = Vec::new();
        push_uint(&mut out, *self);
        out
    }

    fn decode_payload(b: &Vec<u8>) -> (r: Option<u64>) {
        match read_uint(b, 0) {
            Some((v, j)) => if j == b.len() {
                Some(v)
            } else {
                None
            },
            None => None,
        }
    }
}

// ---------------------------------------------------------------------------
// EventData encoding: { kind tag: payload bytes or null }
// ---------------------------------------------------------------------------

pub open spec fn spec_enc_data<T: EventPayload>(d: EventData<T>) -> Seq<u8> {
    match d {
        EventData::Call(t) => spec_head(5, 1) + spec_enc_uint(0) + spec_enc_bytes(
            t.payload_bytes(),
        ),
        EventData::Cast(t) => spec_head(5, 1) + spec_enc_uint(1) + spec_enc_bytes(
            t.payload_bytes(),
        ),
        EventData::CallRet(t) => spec_head(5, 1) + spec_enc_uint(2) + spec_enc_bytes(
            t.payload_bytes(),
        ),
        EventData::CallNoRet => spec_head(5, 1) + spec_enc_uint(3) + spec_null(),
        EventData::Error => spec_head(5, 1) + spec_enc_uint(4) + spec_null(),
    }
}

pub open spec fn spec_dec_data<T: EventPayload>(s: Seq<u8>, i: int) -> Option<(EventData<T>, int)> {
    match spec_dec_head(s, i) {
        Some((major, cnt, i1)) => if major == 5 && cnt == 1 {
            match spec_dec_uint(s, i1) {
                Some((tag, i2)) => if tag == 0 || tag == 1 || tag == 2 {
                    match spec_dec_bytes(s, i2) {
                        Some((pb, i3)) => match T::payload_of(pb) {
                            Some(t) => Some(
                                (
                                    if tag == 0 {
                                        EventData::Call(t)
                                    } else if tag == 1 {
                                        EventData::Cast(t)
                                    } else {
                                        EventData::CallRet(t)
                                    },
                                    i3,
                                ),
                            ),
                            None => None,
                        },
                        None => None,
                    }
                } else if tag == 3 {
                    if spec_is_null_at(s, i2) {
                        Some((EventData::CallNoRet, i2 + 1))
                    } else {
                        None
                    }
                } else if tag == 4 {
                    if spec_is_null_at(s, i2) {
                        Some((EventData::Error, i2 + 1))
                    } else {
                        None
                    }
                } else {
                    None
                },
                None => None,
            }
        } else {
            None
        },
        None => None,
    }
}

/// An event body embedded in a larger buffer decodes to exactly what was
/// encoded.
pub proof fn lemma_data_round<T: EventPayload>(d: EventData<T>, s: Seq<u8>, i: int)
    requires
        0 <= i,
        i + spec_enc_data(d).len() <= s.len(),
        s.subrange(i, i + spec_enc_data(d).len() as int) =~= spec_enc_data(d),
    ensures
        spec_dec_data::<T>(s, i) == Some((d, i + spec_enc_data(d).len() as int)),
{
    let e = spec_enc_data(d);
    let h = spec_head(5, 1);
    let o1 = h.len() as int;
    match d {
        EventData::Call(t) => {
            t.lemma_payload_round_trip();
            let k = spec_enc_uint(0);
            let pb = spec_enc_bytes(t.payload_bytes());
            let o2 = o1 + k.len();
            assert(e.len() == o2 + pb.len());
            assert(e.subrange(0, o1) =~= h);
            assert(e.subrange(o1, o2) =~= k);
            assert(e.subrange(o2, e.len() as int) =~= pb);
            lemma_embed_piece(s, i, e, 0, h);
            lemma_head_round(5, 1, s, i);
            lemma_embed_piece(s, i, e, o1, k);
            lemma_uint_round(0, s, i + o1);
            lemma_embed_piece(s, i, e, o2, pb);
            lemma_bytes_round(t.payload_bytes(), s, i + o2);
        },
        EventData::Cast(t) => {
            t.lemma_payload_round_trip();
            let k = spec_enc_uint(1);
            let pb = spec_enc_bytes(t.payload_bytes());
            let o2 = o1 + k.len();
            assert(e.len() == o2 + pb.len());
            assert(e.subrange(0, o1) =~= h);
            assert(e.subrange(o1, o2) =~= k);
            assert(e.subrange(o2, e.len() as int) =~= pb);
            lemma_embed_piece(s, i, e, 0, h);
            lemma_head_round(5, 1, s, i);
            lemma_embed_piece(s, i, e, o1, k);
            lemma_uint_round(1, s, i + o1);
            lemma_embed_piece(s, i, e, o2, pb);
            lemma_bytes_round(t.payload_bytes(), s, i + o2);
        },
        EventData::CallRet(t) => {
            t.lemma_payload_round_trip();
            let k = spec_enc_uint(2);
            let pb = spec_enc_bytes(t.payload_bytes());
            let o2 = o1 + k.len();
            assert(e.len() == o2 + pb.len());
            assert(e.subrange(0, o1) =~= h);
            assert(e.subrange(o1, o2) =~= k);
            assert(e.subrange(o2, e.len() as int) =~= pb);
            lemma_embed_piece(s, i, e, 0, h);
            lemma_head_round(5, 1, s, i);
            lemma_embed_piece(s, i, e, o1, k);
            lemma_uint_round(2, s, i + o1);
            lemma_embed_piece(s, i, e, o2, pb);
            lemma_bytes_round(t.payload_bytes(), s, i + o2);
        },
        EventData::CallNoRet => {
            let k = spec_enc_uint(3);
            let o2 = o1 + k.len();
            assert(e.len() == o2 + 1);
            assert(e.subrange(0, o1) =~= h);
            assert(e.subrange(o1, o2) =~= k);
            lemma_embed_piece(s, i, e, 0, h);
            lemma_head_round(5, 1, s, i);
            lemma_embed_piece(s, i, e, o1, k);
            lemma_uint_round(3, s, i + o1);
            assert(s.subrange(i, i + e.len() as int)[o2] == e[o2]);
            assert(s[i + o2] == 246u8);
        },
        EventData::Error => {
            let k = spec_enc_uint(4);
            let o2 = o1 + k.len();
            assert(e.len() == o2 + 1);
            assert(e.subrange(0, o1) =~= h);
            assert(e.subrange(o1, o2) =~= k);
            lemma_embed_piece(s, i, e, 0, h);
            lemma_head_round(5, 1, s, i);
            lemma_embed_piece(s, i, e, o1, k);
            lemma_uint_round(4, s, i + o1);
            assert(s.subrange(i, i + e.len() as int)[o2] == e[o2]);
            assert(s[i + o2] == 246u8);
        },
    }
}

/// Appends the encoding of an event body.
pub fn push_data<T: EventPayload>(out: &mut Vec<u8>, d: &EventData<T>)
    ensures
        final(out)@ == old(out)@ + spec_enc_data(*d),
{
    let ghost orig = out@;
    push_head(out, 5, 1);
    match d {
        EventData::Call(t) => {
            push_uint(out, 0);
            let pb = t.encode_payload();
            crate::cbor::push_bytes(out, &pb);
        },
        EventData::Cast(t) => {
            push_uint(out, 1);
            let pb = t.encode_payload();
            crate::cbor::push_bytes(out, &pb);
        },
        EventData::CallRet(t) => {
            push_uint(out, 2);
            let pb = t.encode_payload();
            crate::cbor::push_bytes(out, &pb);
        },
        EventData::CallNoRet => {
            push_uint(out, 3);
            push_null(out);
        },
        EventData::Error => {
            push_uint(out, 4);
            push_null(out);
        },
    }
    proof {
        assert(out@ =~= orig + spec_enc_data(*d));
    }
}

/// Reads an event body at position `i`.
pub fn read_data<T: EventPayload>(s: &Vec<u8>, i: usize) -> (r: Option<(EventData<T>, usize)>)
    ensures
        match r {
            Some(t) => spec_dec_data::<T>(s@, i as int) == Some((t.0, t.1 as int)) && t.1 <= s.len()
                && i < t.1,
            None => spec_dec_data::<T>(s@, i as int) is None,
        },
{
    let (major, cnt, i1) = match read_head(s, i) {
        Some(t) => t,
        None => {
            return None;
        },
    };
    if major != 5 || cnt != 1 {
        return None;
    }
    let (tag, i2) = match read_uint(s, i1) {
        Some(t) => t,
        None => {
            return None;
        },
    };
    if tag == 0 || tag == 1 || tag == 2 {
        let (pb, i3) = match crate::cbor::read_bytes(s, i2) {
            Some(t) => t,
            None => {
                return None;
            },
        };
        let t = match T::decode_payload(&pb) {
            Some(t) => t,
            None => {
                return None;
            },
        };
        if tag == 0 {
            Some((EventData::Call(t), i3))
        } else if tag == 1 {
            Some((EventData::Cast(t), i3))
        } else {
            Some((EventData::CallRet(t), i3))
        }
    } else if tag == 3 {
        if is_null_at(s, i2) {
            Some((EventData::CallNoRet, i2 + 1))
        } else {
            None
        }
    } else if tag == 4 {
        if is_null_at(s, i2) {
            Some((EventData::Error, i2 + 1))
        } else {
            None
        }
    } else {
        None
    }
}

// ---------------------------------------------------------------------------
// Optional metadata: null, or the metadata record
// ---------------------------------------------------------------------------

pub open spec fn spec_enc_opt_meta(o: Option<EventMetadata>) -> Seq<u8> {
    match o {
        Option::None => spec_null(),
        Option::Some(m) => spec_enc_meta(m),
    }
}

pub open spec fn spec_dec_opt_meta(s: Seq<u8>, i: int) -> Option<(Option<EventMetadata>, int)> {
    if spec_is_null_at(s, i) {
        Some((Option::None, i + 1))
    } else {
        match spec_dec_meta(s, i) {
            Some((m, j)) => Some((Option::Some(m), j)),
            None => None,
        }
    }
}

/// Optional metadata embedded in a larger buffer decodes to exactly what was
/// encoded: the null byte never collides with a metadata record, whose first
/// byte is a map head.
pub proof fn lemma_opt_meta_round(o: Option<EventMetadata>, s: Seq<u8>, i: int)
    requires
        0 <= i,
        i + spec_enc_opt_meta(o).len() <= s.len(),
        s.subrange(i, i + spec_enc_opt_meta(o).len() as int) =~= spec_enc_opt_meta(o),
    ensures
        spec_dec_opt_meta(s, i) == Some((o, i + spec_enc_opt_meta(o).len() as int)),
{
    let e = spec_enc_opt_meta(o);
    match o {
        Option::None => {
            assert(s.subrange(i, i + 1)[0] == e[0]);
            assert(s[i] == 246u8);
        },
        Option::Some(m) => {
            assert(s.subrange(i, i + e.len() as int)[0] == e[0]);
            assert(e[0] == spec_head(5, 2)[0]);
            assert(s[i] == 162u8);
            lemma_meta_round(m, s, i);
        },
    }
}

/// Appends optional metadata.
pub fn push_opt_metadata(out: &mut Vec<u8>, o: &Option<EventMetadata>)
    ensures
        final(out)@ == old(out)@ + spec_enc_opt_meta(*o),
{
    match o {
        Option::None => push_null(out),
        Option::Some(m) => push_metadata(out, m),
    }
}

/// Reads optional metadata at position `i`.
pub fn read_opt_metadata(s: &Vec<u8>, i: usize) -> (r: Option<(Option<EventMetadata>, usize)>)
    ensures
        match r {
            Some(t) => spec_dec_opt_meta(s@, i as int) == Some((t.0, t.1 as int)) && t.1 <= s.len()
                && i < t.1,
            None => spec_dec_opt_meta(s@, i as int) is None,
        },
{
    if is_null_at(s, i) {
        Some((None, i + 1))
    } else {
        match read_metadata(s, i) {
            Some((m, j)) => Some((Some(m), j)),
            None => None,
        }
    }
}

// ---------------------------------------------------------------------------
// Event encoding:
// { 0: target, 1: source, 2: stream_id, 3: metadata, 34: data, 4: created }
// ---------------------------------------------------------------------------

pub open spec fn spec_enc_event<T: EventPayload>(e: Event<T>) -> Seq<u8> {
    spec_head(5, 6) + spec_enc_uint(0) + spec_enc_iid(e.target) + spec_enc_uint(1) + spec_enc_iid(
        e.source,
    ) + spec_enc_uint(2) + spec_enc_uint(e.stream_id) + spec_enc_uint(3) + spec_enc_opt_meta(
        e.metadata,
    ) + spec_enc_uint(34) + spec_enc_data(e.data) + spec_enc_uint(4) + spec_enc_ts(e.created)
}

pub open spec fn spec_dec_event<T: EventPayload>(s: Seq<u8>, i: int) -> Option<(Event<T>, int)> {
    match spec_dec_head(s, i) {
        Some((major, cnt, i1)) => if major == 5 && cnt == 6 {
            match spec_dec_uint(s, i1) {
                Some((k0, i2)) => if k0 == 0 {
                    match spec_dec_iid(s, i2) {
                        Some((target, i3)) => match spec_dec_uint(s, i3) {
                            Some((k1, i4)) => if k1 == 1 {
                                match spec_dec_iid(s, i4) {
                                    Some((source, i5)) => match spec_dec_uint(s, i5) {
                                        Some((k2, i6)) => if k2 == 2 {
                                            match spec_dec_uint(s, i6) {
                                                Some((stream_id, i7)) => match spec_dec_uint(
                                                    s,
                                                    i7,
                                                ) {
                                                    Some((k3, i8)) => if k3 == 3 {
                                                        match spec_dec_opt_meta(s, i8) {
                                                            Some((metadata, i9)) => match
                                                                spec_dec_uint(s, i9) {
                                                                Some((k34, i10)) => if k34 == 34 {
                                                                    match spec_dec_data::<T>(
                                                                        s,
                                                                        i10,
                                                                    ) {
                                                                        Some((data, i11)) => match
                                                                            spec_dec_uint(s, i11) {
                                                                            Some((k4, i12)) => if k4
                                                                                == 4 {
                                                                                match spec_dec_ts(
                                                                                    s,
                                                                                    i12,
                                                                                ) {
                                                                                    Some(
                                                                                        (
                                                                                            created,
                                                                                            i13,
                                                                                        ),
                                                                                    ) => Some(
                                                                                        (
                                                                                            Event {
                                                                                                target,
                                                                                                source,
                                                                                                stream_id,
                                                                                                metadata,
                                                                                                data,
                                                                                                created,
                                                                                            },
                                                                                            i13,
                                                                                        ),
                                                                                    ),
                                                                                    None => None,
                                                                                }
                                                                            } else {
                                                                                None
                                                                            },
                                                                            None => None,
                                                                        },
                                                                        None => None,
                                                                    }
                                                                } else {
                                                                    None
                                                                },
                                                                None => None,
                                                            },
                                                            None => None,
                                                        }
                                                    } else {
                                                        None
                                                    },
                                                    None => None,
                                                },
                                                None => None,
                                            }
                                        } else {
                                            None
                                        },
                                        None => None,
                                    },
                                    None => None,
                                }
                            } else {
                                None
                            },
                            None => None,
                        },
                        None => None,
                    }
                } else {
                    None
                },
                None => None,
            }
        } else {
            None
        },
        None => None,
    }
}

/// An event embedded in a larger buffer decodes to exactly what was encoded.
#[verifier::rlimit(100)]
#[verifier::spinoff_prover]
pub proof fn lemma_event_round<T: EventPayload>(ev: Event<T>, s: Seq<u8>, i: int)
    requires
        0 <= i,
        i + spec_enc_event(ev).len() <= s.len(),
        s.subrange(i, i + spec_enc_event(ev).len() as int) =~= spec_enc_event(ev),
    ensures
        spec_dec_event::<T>(s, i) == Some((ev, i + spec_enc_event(ev).len() as int)),
{
    let e = spec_enc_event(ev);
    let h = spec_head(5, 6);
    let key0 = spec_enc_uint(0);
    let tgt = spec_enc_iid(ev.target);
    let key1 = spec_enc_uint(1);
    let src = spec_enc_iid(ev.source);
    let key2 = spec_enc_uint(2);
    let sid = spec_enc_uint(ev.stream_id);
    let key3 = spec_enc_uint(3);
    let meta = spec_enc_opt_meta(ev.metadata);
    let key34 = spec_enc_uint(34);
    let data = spec_enc_data(ev.data);
    let key4 = spec_enc_uint(4);
    let ts = spec_enc_ts(ev.created);
    let o1 = h.len() as int;
    let o2 = o1 + key0.len();
    let o3 = o2 + tgt.len();
    let o4 = o3 + key1.len();
    let o5 = o4 + src.len();
    let o6 = o5 + key2.len();
    let o7 = o6 + sid.len();
    let o8 = o7 + key3.len();
    let o9 = o8 + meta.len();
    let o10 = o9 + key34.len();
    let o11 = o10 + data.len();
    let o12 = o11 + key4.len();
    assert(e.len() == o12 + ts.len());
    assert(spec_dec_head(s, i) == Some((5u8, 6u64, i + o1))) by {
        assert(e.subrange(0, o1) =~= h);
        lemma_embed_piece(s, i, e, 0, h);
        lemma_head_round(5, 6, s, i);
    }
    assert(spec_dec_uint(s, i + o1) == Some((0u64, i + o2))) by {
        assert(e.subrange(o1, o2) =~= key0);
        lemma_embed_piece(s, i, e, o1, key0);
        lemma_uint_round(0, s, i + o1);
    }
    assert(spec_dec_iid(s, i + o2) == Some((ev.target, i + o3))) by {
        assert(e.subrange(o2, o3) =~= tgt);
        lemma_embed_piece(s, i, e, o2, tgt);
        lemma_iid_round(ev.target, s, i + o2);
    }
    assert(spec_dec_uint(s, i + o3) == Some((1u64, i + o4))) by {
        assert(e.subrange(o3, o4) =~= key1);
        lemma_embed_piece(s, i, e, o3, key1);
        lemma_uint_round(1, s, i + o3);
    }
    assert(spec_dec_iid(s, i + o4) == Some((ev.source, i + o5))) by {
        assert(e.subrange(o4, o5) =~= src);
        lemma_embed_piece(s, i, e, o4, src);
        lemma_iid_round(ev.source, s, i + o4);
    }
    assert(spec_dec_uint(s, i + o5) == Some((2u64, i + o6))) by {
        assert(e.subrange(o5, o6) =~= key2);
        lemma_embed_piece(s, i, e, o5, key2);
        lemma_uint_round(2, s, i + o5);
    }
    assert(spec_dec_uint(s, i + o6) == Some((ev.stream_id, i + o7))) by {
        assert(e.subrange(o6, o7) =~= sid);
        lemma_embed_piece(s, i, e, o6, sid);
        lemma_uint_round(ev.stream_id, s, i + o6);
    }
    assert(spec_dec_uint(s, i + o7) == Some((3u64, i + o8))) by {
        assert(e.subrange(o7, o8) =~= key3);
        lemma_embed_piece(s, i, e, o7, key3);
        lemma_uint_round(3, s, i + o7);
    }
    assert(spec_dec_opt_meta(s, i + o8) == Some((ev.metadata, i + o9))) by {
        assert(e.subrange(o8, o9) =~= meta);
        lemma_embed_piece(s, i, e, o8, meta);
        lemma_opt_meta_round(ev.metadata, s, i + o8);
    }
    assert(spec_dec_uint(s, i + o9) == Some((34u64, i + o10))) by {
        assert(e.subrange(o9, o10) =~= key34);
        lemma_embed_piece(s, i, e, o9, key34);
        lemma_uint_round(34, s, i + o9);
    }
    assert(spec_dec_data::<T>(s, i + o10) == Some((ev.data, i + o11))) by {
        assert(e.subrange(o10, o11) =~= data);
        lemma_embed_piece(s, i, e, o10, data);
        lemma_data_round(ev.data, s, i + o10);
    }
    assert(spec_dec_uint(s, i + o11) == Some((4u64, i + o12))) by {
        assert(e.subrange(o11, o12) =~= key4);
        lemma_embed_piece(s, i, e, o11, key4);
        lemma_uint_round(4, s, i + o11);
    }
    assert(spec_dec_ts(s, i + o12) == Some((ev.created, i + e.len()))) by {
        assert(e.subrange(o12, e.len() as int) =~= ts);
        lemma_embed_piece(s, i, e, o12, ts);
        lemma_ts_round(ev.created, s, i + o12);
    }
}

/// Round trip: decoding an encoded event gives the event back, for any
/// payload type, whether or not metadata is present.
pub proof fn lemma_event_round_trip<T: EventPayload>(ev: Event<T>)
    ensures
        spec_dec_event::<T>(spec_enc_event(ev), 0) == Some(
            (ev, spec_enc_event(ev).len() as int),
        ),
{
    let e = spec_enc_event(ev);
    assert(e.subrange(0, e.len() as int) =~= e);
    lemma_event_round(ev, e, 0);
}

impl<T: EventPayload> Event<T> {
    /// Encodes this event for the wire.
    pub fn encode(&self) -> (r: Vec<u8>)
        ensures
            r@ == spec_enc_event(*self),
    {
        let mut out: Vec<u8> = Vec::new();
        let ghost orig = out@;
        push_head(&mut out, 5, 6);
        push_uint(&mut out, 0);
        push_instance_id(&mut out, &self.target);
        push_uint(&mut out, 1);
        push_instance_id(&mut out, &self.source);
        push_uint(&mut out, 2);
        push_uint(&mut out, self.stream_id);
        push_uint(&mut out, 3);
        push_opt_metadata(&mut out, &self.metadata);
        push_uint(&mut out, 34);
        push_data(&mut out, &self.data);
        push_uint(&mut out, 4);
        push_timestamp(&mut out, &self.created);
        proof {
            assert(out@ =~= spec_enc_event(*self));
        }
        out
    }

    /// Decodes an event from the wire, requiring the whole buffer to be
    /// consumed. Fails with `MalformedEncoding` on unrecognized tags, lengths
    /// inconsistent with the remaining buffer, or wrong fixed-size fields.
    pub fn decode(s: &Vec<u8>) -> (r: Result<Self, CoreError>)
        ensures
            match r {
                Ok(ev) => spec_dec_event::<T>(s@, 0) == Some((ev, s@.len() as int)),
                Err(err) => err == CoreError::MalformedEncoding && match spec_dec_event::<T>(
                    s@,
                    0,
                ) {
                    Some(t) => t.1 != s@.len(),
                    None => true,
                },
            },
    {
        let (major, cnt, i1) = match read_head(s, 0) {
            Some(t) => t,
            None => {
                return Err(CoreError::MalformedEncoding);
            },
        };
        if major != 5 || cnt != 6 {
            return Err(CoreError::MalformedEncoding);
        }
        let (k0, i2) = match read_uint(s, i1) {
            Some(t) => t,
            None => {
                return Err(CoreError::MalformedEncoding);
            },
        };
        if k0 != 0 {
            return Err(CoreError::MalformedEncoding);
        }
        let (target, i3) = match read_instance_id(s, i2) {
            Some(t) => t,
            None => {
                return Err(CoreError::MalformedEncoding);
            },
        };
        let (k1, i4) = match read_uint(s, i3) {
            Some(t) => t,
            None => {
                return Err(CoreError::MalformedEncoding);
            },
        };
        if k1 != 1 {
            return Err(CoreError::MalformedEncoding);
        }
        let (source, i5) = match read_instance_id(s, i4) {
            Some(t) => t,
            None => {
                return Err(CoreError::MalformedEncoding);
            },
        };
        let (k2, i6) = match read_uint(s, i5) {
            Some(t) => t,
            None => {
                return Err(CoreError::MalformedEncoding);
            },
        };
        if k2 != 2 {
            return Err(CoreError::MalformedEncoding);
        }
        let (stream_id, i7) = match read_uint(s, i6) {
            Some(t) => t,
            None => {
                return Err(CoreError::MalformedEncoding);
            },
        };
        let (k3, i8) = match read_uint(s, i7) {
            Some(t) => t,
            None => {
                return Err(CoreError::MalformedEncoding);
            },
        };
        if k3 != 3 {
            return Err(CoreError::MalformedEncoding);
        }
        let (metadata, i9) = match read_opt_metadata(s, i8) {
            Some(t) => t,
            None => {
                return Err(CoreError::MalformedEncoding);
            },
        };
        let (k34, i10) = match read_uint(s, i9) {
            Some(t) => t,
            None => {
                return Err(CoreError::MalformedEncoding);
            },
        };
        if k34 != 34 {
            return Err(CoreError::MalformedEncoding);
        }
        let (data, i11) = match read_data::<T>(s, i10) {
            Some(t) => t,
            None => {
                return Err(CoreError::MalformedEncoding);
            },
        };
        let (k4, i12) = match read_uint(s, i11) {
            Some(t) => t,
            None => {
                return Err(CoreError::MalformedEncoding);
            },
        };
        if k4 != 4 {
            return Err(CoreError::MalformedEncoding);
        }
        let (created, i13) = match read_timestamp(s, i12) {
            Some(t) => t,
            None => {
                return Err(CoreError::MalformedEncoding);
            },
        };
        if i13 != s.len() {
            return Err(CoreError::MalformedEncoding);
        }
        Ok(Event { target, source, stream_id, metadata, data, created })
    }
}

} // verus!
