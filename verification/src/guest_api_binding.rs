//! The guest execution bridge: marshals values across the host/guest sandbox
//! boundary for one running instance. Guest memory is a linear byte buffer;
//! every guest-supplied pointer/length pair is checked against it before any
//! read or write, an out-of-range access fails only the offending call with
//! `MemoryFault`, and guest-supplied text is checked for UTF-8 validity at
//! read time. Outgoing invocations carry the tracing context recovered from
//! the guest's accessor set as two 64-bit trace-id words and a span id.

use crate::bytes::{be_seq, join_trace_id, pow256, pow256_u64, spec_join_words};
use crate::errors::CoreError;
use crate::invocation::{EventMetadata, InstanceId};
use vstd::prelude::*;
use vstd::utf8::{decode_utf8, encode_utf8, valid_utf8};

verus! {

broadcast use vstd::slice::group_slice_axioms, vstd::std_specs::vec::group_vec_axioms;

/// The host-side context the bridge serves: the identity of the instance the
/// guest runs as. The asynchronous host capabilities themselves (forwarding
/// casts and calls, persistence, telemetry) live outside the core.
pub struct GuestAPIHost {
    pub instance_id: InstanceId,
}

/// Binds one sandboxed guest to its host context.
pub struct GuestAPI {
    pub host: GuestAPIHost,
}

/// What a bridged call returned from the dataplane.
#[derive(Clone, Debug, PartialEq)]
pub enum CallRet {
    NoReply,
    Reply(String),
    Error,
}

/// Telemetry severity handed over by the guest as a plain integer.
#[derive(Clone, Copy, Debug, PartialEq, Eq, Structural)]
pub enum LogLevel {
    Error,
    Warn,
    Info,
    Debug,
    Trace,
}

/// The fixed mapping from the guest's integer severity to a level.
pub open spec fn spec_level_from_i32(level: i32) -> LogLevel {
    if level == 1 {
        LogLevel::Error
    } else if level == 2 {
        LogLevel::Warn
    } else if level == 3 {
        LogLevel::Info
    } else if level == 4 {
        LogLevel::Debug
    } else {
        LogLevel::Trace
    }
}

pub fn level_from_i32(level: i32) -> (r: LogLevel)
    ensures
        r == spec_level_from_i32(level),
{
    if level == 1 {
        LogLevel::Error
    } else if level == 2 {
        LogLevel::Warn
    } else if level == 3 {
        LogLevel::Info
    } else if level == 4 {
        LogLevel::Debug
    } else {
        LogLevel::Trace
    }
}

/// A pointer/length pair lies inside guest memory.
pub open spec fn spec_in_bounds(mem: Seq<u8>, ptr: i32, len: i32) -> bool {
    0 <= ptr && 0 <= len && ptr + len <= mem.len()
}

/// The guest-memory bytes a pointer/length pair names.
pub open spec fn spec_region(mem: Seq<u8>, ptr: i32, len: i32) -> Seq<u8> {
    mem.subrange(ptr as int, ptr as int + len as int)
}

/// The buffer after `p` has been written at offset `at`; everything else is
/// unchanged.
pub open spec fn splice_bytes(s: Seq<u8>, at: int, p: Seq<u8>) -> Seq<u8> {
    Seq::new(s.len(), |j: int| if at <= j < at + p.len() { p[j - at] } else { s[j] })
}

/// The `n`-byte little-endian encoding of `v`: the first byte is the low byte.
pub open spec fn le_seq(v: nat, n: nat) -> Seq<u8> {
    Seq::new(n, |i: int| ((v / pow256(i as nat)) % 256) as u8)
}

/// Relies on `String::from_utf8`: it succeeds exactly on valid UTF-8 input
/// and decodes it; invalid input is reported, never truncated or replaced.
#[verifier::external_body]
fn string_from_utf8(b: Vec<u8>) -> (r: Option<String>)
    ensures
        r is Some <==> valid_utf8(b@),
        r is Some ==> r.unwrap()@ == decode_utf8(b@),
{
    match String::from_utf8(b) {
        Ok(s) => Some(s),
        Err(_) => None,
    }
}

/// Reads a guest byte region after checking it against the memory size.
pub fn load_bytes_from_vm(mem: &Vec<u8>, ptr: i32, len: i32) -> (r: Result<Vec<u8>, CoreError>)
    ensures
        match r {
            Ok(b) => spec_in_bounds(mem@, ptr, len) && b@ == spec_region(mem@, ptr, len),
            Err(e) => e == CoreError::MemoryFault && !spec_in_bounds(mem@, ptr, len),
        },
{
    if ptr < 0 || len < 0 {
        return Err(CoreError::MemoryFault);
    }
    let p = ptr as usize;
    let l = len as usize;
    if p > mem.len() || mem.len() - p < l {
        return Err(CoreError::MemoryFault);
    }
    let mut b: Vec<u8> = Vec::new();
    let mut k: usize = 0;
    while k < l
        invariant
            k <= l,
            p + l <= mem.len(),
            b@ == mem@.subrange(p as int, p as int + k as int),
        decreases l - k,
    {
        b.push(mem[p + k]);
        proof {
            assert(mem@.subrange(p as int, p as int + k + 1) =~= mem@.subrange(
                p as int,
                p as int + k as int,
            ).push(mem@[p as int + k as int]));
        }
        k = k + 1;
    }
    Ok(b)
}

/// Reads a guest string: the region must lie in memory and hold valid UTF-8.
pub fn load_string_from_vm(mem: &Vec<u8>, ptr: i32, len: i32) -> (r: Result<String, CoreError>)
    ensures
        match r {
            Ok(s) => spec_in_bounds(mem@, ptr, len) && valid_utf8(spec_region(mem@, ptr, len))
                && s@ == decode_utf8(spec_region(mem@, ptr, len)),
            Err(e) => if !spec_in_bounds(mem@, ptr, len) {
                e == CoreError::MemoryFault
            } else {
                !valid_utf8(spec_region(mem@, ptr, len)) && e == CoreError::InvalidPayloadEncoding
            },
        },
{
    let b = match load_bytes_from_vm(mem, ptr, len) {
        Ok(b) => b,
        Err(e) => {
            return Err(e);
        },
    };
    match string_from_utf8(b) {
        Some(s) => Ok(s),
        None => Err(CoreError::InvalidPayloadEncoding),
    }
}

/// Reads a fixed 16-byte identifier from guest memory.
pub fn load_id16_from_vm(mem: &Vec<u8>, ptr: i32) -> (r: Result<[u8; 16], CoreError>)
    ensures
        match r {
            Ok(b) => spec_in_bounds(mem@, ptr, 16) && b@ == spec_region(mem@, ptr, 16),
            Err(e) => e == CoreError::MemoryFault && !spec_in_bounds(mem@, ptr, 16),
        },
{
    if ptr < 0 {
        return Err(CoreError::MemoryFault);
    }
    let p = ptr as usize;
    if p > mem.len() || mem.len() - p < 16 {
        return Err(CoreError::MemoryFault);
    }
    let mut b: [u8; 16] = [0u8; 16];
    let mut k: usize = 0;
    while k < 16
        invariant
            k <= 16,
            p + 16 <= mem.len(),
            forall|j: int| 0 <= j < k ==> b@[j] == mem@[p + j],
        decreases 16 - k,
    {
        b[k] = mem[p + k];
        k = k + 1;
    }
    proof {
        assert(b@ =~= spec_region(mem@, ptr, 16));
    }
    Ok(b)
}

/// Writes bytes into guest memory at a checked offset.
fn store_bytes(mem: &mut Vec<u8>, at: usize, p: &[u8])
    requires
        at + p@.len() <= old(mem).len(),
    ensures
        final(mem)@ == splice_bytes(old(mem)@, at as int, p@),
{
    let mut k: usize = 0;
    while k < p.len()
        invariant
            k <= p@.len(),
            at + p@.len() <= mem@.len(),
            mem@.len() == old(mem)@.len(),
            forall|j: int|
                0 <= j < mem@.len() ==> mem@[j] == if at <= j < at + k {
                    p@[j - at]
                } else {
                    old(mem)@[j]
                },
        decreases p@.len() - k,
    {
        let b = p[k];
        proof {
            vstd::std_specs::vec::axiom_spec_len(mem);
        }
        mem[at + k] = b;
        k = k + 1;
    }
    proof {
        assert(mem@ =~= splice_bytes(old(mem)@, at as int, p@));
    }
}

/// Writes the `n`-byte little-endian form of `v` into guest memory.
fn store_le(mem: &mut Vec<u8>, at: usize, v: u64, n: usize)
    requires
        n <= 8,
        at + n <= old(mem).len(),
    ensures
        final(mem)@ == splice_bytes(old(mem)@, at as int, le_seq(v as nat, n as nat)),
{
    let mut k: usize = 0;
    while k < n
        invariant
            k <= n <= 8,
            at + n <= mem@.len(),
            mem@.len() == old(mem)@.len(),
            forall|j: int|
                0 <= j < mem@.len() ==> mem@[j] == if at <= j < at + k {
                    le_seq(v as nat, n as nat)[j - at]
                } else {
                    old(mem)@[j]
                },
        decreases n - k,
    {
        let pw = pow256_u64(k);
        proof {
            crate::bytes::lemma_pow256_pos(k as nat);
        }
        let b: u8 = ((v / pw) % 256) as u8;
        proof {
            assert(le_seq(v as nat, n as nat)[k as int] == b);
            vstd::std_specs::vec::axiom_spec_len(mem);
        }
        mem[at + k] = b;
        k = k + 1;
    }
    proof {
        assert(mem@ =~= splice_bytes(old(mem)@, at as int, le_seq(v as nat, n as nat)));
    }
}

/// What the telemetry import hands the host: a severity, a target and a
/// message, both read out of guest memory.
#[derive(Clone, Debug, PartialEq)]
pub struct LogRequest {
    pub level: LogLevel,
    pub target: String,
    pub message: String,
}

/// Reads a telemetry request: two guest strings and a severity. Logging never
/// fails the guest; the caller forwards errors to its own diagnostics only.
pub fn telemetry_log(mem: &Vec<u8>, level: i32, target_ptr: i32, target_len: i32, msg_ptr: i32,
    msg_len: i32) -> (r: Result<LogRequest, CoreError>)
    ensures
        match r {
            Ok(lr) => spec_in_bounds(mem@, target_ptr, target_len) && valid_utf8(
                spec_region(mem@, target_ptr, target_len),
            ) && spec_in_bounds(mem@, msg_ptr, msg_len) && valid_utf8(
                spec_region(mem@, msg_ptr, msg_len),
            ) && lr.level == spec_level_from_i32(level) && lr.target@ == decode_utf8(
                spec_region(mem@, target_ptr, target_len),
            ) && lr.message@ == decode_utf8(spec_region(mem@, msg_ptr, msg_len)),
            Err(e) => if !spec_in_bounds(mem@, target_ptr, target_len) {
                e == CoreError::MemoryFault
            } else if !valid_utf8(spec_region(mem@, target_ptr, target_len)) {
                e == CoreError::InvalidPayloadEncoding
            } else if !spec_in_bounds(mem@, msg_ptr, msg_len) {
                e == CoreError::MemoryFault
            } else {
                !valid_utf8(spec_region(mem@, msg_ptr, msg_len)) && e
                    == CoreError::InvalidPayloadEncoding
            },
        },
{
    let target = match load_string_from_vm(mem, target_ptr, target_len) {
        Ok(s) => s,
        Err(e) => {
            return Err(e);
        },
    };
    let message = match load_string_from_vm(mem, msg_ptr, msg_len) {
        Ok(s) => s,
        Err(e) => {
            return Err(e);
        },
    };
    Ok(LogRequest { level: level_from_i32(level), target, message })
}

/// An outgoing invocation aimed at an explicit instance identifier.
#[derive(Clone, Debug, PartialEq)]
pub struct RawInvocation {
    pub target: InstanceId,
    pub metadata: EventMetadata,
    pub payload: String,
}

/// An outgoing invocation aimed at a logical alias.
#[derive(Clone, Debug, PartialEq)]
pub struct AliasInvocation {
    pub alias: String,
    pub metadata: EventMetadata,
    pub payload: String,
}

/// An alias invocation to be delivered no earlier than `delay_ms`
/// milliseconds from now.
#[derive(Clone, Debug, PartialEq)]
pub struct DelayedInvocation {
    pub delay_ms: u64,
    pub alias: String,
    pub metadata: EventMetadata,
    pub payload: String,
}

/// The tracing metadata rebuilt from the words the guest's accessors
/// returned.
pub open spec fn spec_recovered_metadata(trace_id_low: u64, trace_id_high: u64, span_id: u64)
    -> EventMetadata {
    EventMetadata {
        trace_id: crate::invocation::arr16_of(
            be_seq(spec_join_words(trace_id_low, trace_id_high) as nat, 16),
        ),
        span_id,
    }
}

/// Rebuilds the tracing context recovered from the guest's accessor set.
pub fn recovered_metadata(trace_id_low: u64, trace_id_high: u64, span_id: u64) -> (r:
    EventMetadata)
    ensures
        r == spec_recovered_metadata(trace_id_low, trace_id_high, span_id),
        r.trace_id@ == be_seq(spec_join_words(trace_id_low, trace_id_high) as nat, 16),
{
    let m = EventMetadata::from(join_trace_id(trace_id_low, trace_id_high), span_id);
    proof {
        crate::invocation::lemma_arr16_of(m.trace_id@);
        assert(crate::invocation::arr16_of(m.trace_id@) =~= m.trace_id);
    }
    m
}

/// The contract shared by the two raw entry points: which reads succeed, what
/// the result holds, and which error comes first when something is out of
/// range or not text.
pub open spec fn spec_raw_invocation_post(mem: Seq<u8>, instance_node_id_ptr: i32,
    instance_component_id_ptr: i32, payload_ptr: i32, payload_len: i32, trace_id_low: u64,
    trace_id_high: u64, span_id: u64, r: Result<RawInvocation, CoreError>) -> bool {
    match r {
        Ok(o) => spec_in_bounds(mem, instance_node_id_ptr, 16) && spec_in_bounds(
            mem,
            instance_component_id_ptr,
            16,
        ) && spec_in_bounds(mem, payload_ptr, payload_len) && valid_utf8(
            spec_region(mem, payload_ptr, payload_len),
        ) && o.target.node_id@ == spec_region(mem, instance_node_id_ptr, 16)
            && o.target.function_id@ == spec_region(mem, instance_component_id_ptr, 16)
            && o.metadata == spec_recovered_metadata(trace_id_low, trace_id_high, span_id)
            && o.payload@ == decode_utf8(spec_region(mem, payload_ptr, payload_len)),
        Err(e) => if !spec_in_bounds(mem, instance_node_id_ptr, 16) || !spec_in_bounds(
            mem,
            instance_component_id_ptr,
            16,
        ) || !spec_in_bounds(mem, payload_ptr, payload_len) {
            e == CoreError::MemoryFault
        } else {
            !valid_utf8(spec_region(mem, payload_ptr, payload_len)) && e
                == CoreError::InvalidPayloadEncoding
        },
    }
}

fn read_raw_invocation(mem: &Vec<u8>, instance_node_id_ptr: i32, instance_component_id_ptr: i32,
    payload_ptr: i32, payload_len: i32, trace_id_low: u64, trace_id_high: u64, span_id: u64) -> (r:
    Result<RawInvocation, CoreError>)
    ensures
        spec_raw_invocation_post(
            mem@,
            instance_node_id_ptr,
            instance_component_id_ptr,
            payload_ptr,
            payload_len,
            trace_id_low,
            trace_id_high,
            span_id,
            r,
        ),
{
    let node_id = match load_id16_from_vm(mem, instance_node_id_ptr) {
        Ok(b) => b,
        Err(e) => {
            return Err(e);
        },
    };
    let function_id = match load_id16_from_vm(mem, instance_component_id_ptr) {
        Ok(b) => b,
        Err(e) => {
            return Err(e);
        },
    };
    let payload = match load_string_from_vm(mem, payload_ptr, payload_len) {
        Ok(s) => s,
        Err(e) => {
            return Err(e);
        },
    };
    let metadata = recovered_metadata(trace_id_low, trace_id_high, span_id);
    Ok(RawInvocation { target: InstanceId { node_id, function_id }, metadata, payload })
}

/// A fire-and-forget invocation of an explicit instance: reads the two
/// 16-byte identifiers and the payload out of guest memory, bounds-checked,
/// and attaches the recovered tracing context. The host forwards the result;
/// an unknown target is logged and swallowed, never surfaced to the guest.
pub fn cast_raw(mem: &Vec<u8>, instance_node_id_ptr: i32, instance_component_id_ptr: i32,
    payload_ptr: i32, payload_len: i32, trace_id_low: u64, trace_id_high: u64, span_id: u64) -> (r:
    Result<RawInvocation, CoreError>)
    ensures
        spec_raw_invocation_post(
            mem@,
            instance_node_id_ptr,
            instance_component_id_ptr,
            payload_ptr,
            payload_len,
            trace_id_low,
            trace_id_high,
            span_id,
            r,
        ),
{
    read_raw_invocation(
        mem,
        instance_node_id_ptr,
        instance_component_id_ptr,
        payload_ptr,
        payload_len,
        trace_id_low,
        trace_id_high,
        span_id,
    )
}

/// The request half of a call to an explicit instance; the reply is written
/// back by `write_call_reply` once the host has an answer.
pub fn call_raw(mem: &Vec<u8>, instance_node_id_ptr: i32, instance_component_id_ptr: i32,
    payload_ptr: i32, payload_len: i32, trace_id_low: u64, trace_id_high: u64, span_id: u64) -> (r:
    Result<RawInvocation, CoreError>)
    ensures
        spec_raw_invocation_post(
            mem@,
            instance_node_id_ptr,
            instance_component_id_ptr,
            payload_ptr,
            payload_len,
            trace_id_low,
            trace_id_high,
            span_id,
            r,
        ),
{
    read_raw_invocation(
        mem,
        instance_node_id_ptr,
        instance_component_id_ptr,
        payload_ptr,
        payload_len,
        trace_id_low,
        trace_id_high,
        span_id,
    )
}

/// The contract shared by the alias entry points.
pub open spec fn spec_alias_invocation_post(mem: Seq<u8>, target_ptr: i32, target_len: i32,
    payload_ptr: i32, payload_len: i32, trace_id_low: u64, trace_id_high: u64, span_id: u64,
    r: Result<AliasInvocation, CoreError>) -> bool {
    match r {
        Ok(o) => spec_in_bounds(mem, target_ptr, target_len) && valid_utf8(
            spec_region(mem, target_ptr, target_len),
        ) && spec_in_bounds(mem, payload_ptr, payload_len) && valid_utf8(
            spec_region(mem, payload_ptr, payload_len),
        ) && o.alias@ == decode_utf8(spec_region(mem, target_ptr, target_len)) && o.metadata
            == spec_recovered_metadata(trace_id_low, trace_id_high, span_id) && o.payload@
            == decode_utf8(spec_region(mem, payload_ptr, payload_len)),
        Err(e) => if !spec_in_bounds(mem, target_ptr, target_len) {
            e == CoreError::MemoryFault
        } else if !valid_utf8(spec_region(mem, target_ptr, target_len)) {
            e == CoreError::InvalidPayloadEncoding
        } else if !spec_in_bounds(mem, payload_ptr, payload_len) {
            e == CoreError::MemoryFault
        } else {
            !valid_utf8(spec_region(mem, payload_ptr, payload_len)) && e
                == CoreError::InvalidPayloadEncoding
        },
    }
}

fn read_alias_invocation(mem: &Vec<u8>, target_ptr: i32, target_len: i32, payload_ptr: i32,
    payload_len: i32, trace_id_low: u64, trace_id_high: u64, span_id: u64) -> (r: Result<
    AliasInvocation,
    CoreError,
>)
    ensures
        spec_alias_invocation_post(
            mem@,
            target_ptr,
            target_len,
            payload_ptr,
            payload_len,
            trace_id_low,
            trace_id_high,
            span_id,
            r,
        ),
{
    let alias = match load_string_from_vm(mem, target_ptr, target_len) {
        Ok(s) => s,
        Err(e) => {
            return Err(e);
        },
    };
    let payload = match load_string_from_vm(mem, payload_ptr, payload_len) {
        Ok(s) => s,
        Err(e) => {
            return Err(e);
        },
    };
    let metadata = recovered_metadata(trace_id_low, trace_id_high, span_id);
    Ok(AliasInvocation { alias, metadata, payload })
}

/// A fire-and-forget invocation of a logical alias. The tracing context is
/// recovered from the guest's accessors for every such cast; an unresolvable
/// alias is logged by the host and otherwise ignored.
pub fn cast(mem: &Vec<u8>, target_ptr: i32, target_len: i32, payload_ptr: i32, payload_len: i32,
    trace_id_low: u64, trace_id_high: u64, span_id: u64) -> (r: Result<AliasInvocation, CoreError>)
    ensures
        spec_alias_invocation_post(
            mem@,
            target_ptr,
            target_len,
            payload_ptr,
            payload_len,
            trace_id_low,
            trace_id_high,
            span_id,
            r,
        ),
{
    read_alias_invocation(
        mem,
        target_ptr,
        target_len,
        payload_ptr,
        payload_len,
        trace_id_low,
        trace_id_high,
        span_id,
    )
}

/// The request half of a call to a logical alias.
pub fn call(mem: &Vec<u8>, target_ptr: i32, target_len: i32, payload_ptr: i32, payload_len: i32,
    trace_id_low: u64, trace_id_high: u64, span_id: u64) -> (r: Result<AliasInvocation, CoreError>)
    ensures
        spec_alias_invocation_post(
            mem@,
            target_ptr,
            target_len,
            payload_ptr,
            payload_len,
            trace_id_low,
            trace_id_high,
            span_id,
            r,
        ),
{
    read_alias_invocation(
        mem,
        target_ptr,
        target_len,
        payload_ptr,
        payload_len,
        trace_id_low,
        trace_id_high,
        span_id,
    )
}

/// The delay a guest requested, reinterpreted as an unsigned count of
/// milliseconds the way a two's-complement cast does.
pub open spec fn spec_delay_u64(d: i64) -> u64 {
    if d >= 0 {
        d as u64
    } else {
        (d + 0x10000000000000000) as u64
    }
}

/// A cast to be delivered no earlier than `delay_ms` milliseconds from now;
/// only the minimum delay is promised, not an ordering.
pub fn delayed_cast(mem: &Vec<u8>, delay_ms: i64, target_ptr: i32, target_len: i32,
    payload_ptr: i32, payload_len: i32, trace_id_low: u64, trace_id_high: u64, span_id: u64) -> (r:
    Result<DelayedInvocation, CoreError>)
    ensures
        match r {
            Ok(o) => spec_alias_invocation_post(
                mem@,
                target_ptr,
                target_len,
                payload_ptr,
                payload_len,
                trace_id_low,
                trace_id_high,
                span_id,
                Ok(
                    AliasInvocation {
                        alias: o.alias,
                        metadata: o.metadata,
                        payload: o.payload,
                    },
                ),
            ) && o.delay_ms == spec_delay_u64(delay_ms),
            Err(e) => spec_alias_invocation_post(
                mem@,
                target_ptr,
                target_len,
                payload_ptr,
                payload_len,
                trace_id_low,
                trace_id_high,
                span_id,
                Err(e),
            ),
        },
{
    let inv = match read_alias_invocation(
        mem,
        target_ptr,
        target_len,
        payload_ptr,
        payload_len,
        trace_id_low,
        trace_id_high,
        span_id,
    ) {
        Ok(o) => o,
        Err(e) => {
            return Err(e);
        },
    };
    let delay: u64 = if delay_ms >= 0 {
        delay_ms as u64
    } else {
        ((delay_ms as i128) + 0x10000000000000000i128) as u64
    };
    Ok(
        DelayedInvocation {
            delay_ms: delay,
            alias: inv.alias,
            metadata: inv.metadata,
            payload: inv.payload,
        },
    )
}

/// Hands a serialized state snapshot to the host for persistence.
pub fn sync(mem: &Vec<u8>, state_ptr: i32, state_len: i32) -> (r: Result<String, CoreError>)
    ensures
        match r {
            Ok(s) => spec_in_bounds(mem@, state_ptr, state_len) && valid_utf8(
                spec_region(mem@, state_ptr, state_len),
            ) && s@ == decode_utf8(spec_region(mem@, state_ptr, state_len)),
            Err(e) => if !spec_in_bounds(mem@, state_ptr, state_len) {
                e == CoreError::MemoryFault
            } else {
                !valid_utf8(spec_region(mem@, state_ptr, state_len)) && e
                    == CoreError::InvalidPayloadEncoding
            },
        },
{
    load_string_from_vm(mem, state_ptr, state_len)
}

/// Writes the instance's own identity into guest memory at the two given
/// output slots: 16 node-id bytes, then 16 function-id bytes. Nothing is
/// written unless both slots are in range.
pub fn slf(api: &GuestAPI, mem: &mut Vec<u8>, out_node_id_ptr: i32, out_component_id_ptr: i32)
    -> (r: Result<(), CoreError>)
    ensures
        match r {
            Ok(()) => spec_in_bounds(old(mem)@, out_node_id_ptr, 16) && spec_in_bounds(
                old(mem)@,
                out_component_id_ptr,
                16,
            ) && final(mem)@ == splice_bytes(
                splice_bytes(old(mem)@, out_node_id_ptr as int, api.host.instance_id.node_id@),
                out_component_id_ptr as int,
                api.host.instance_id.function_id@,
            ),
            Err(e) => e == CoreError::MemoryFault && !(spec_in_bounds(
                old(mem)@,
                out_node_id_ptr,
                16,
            ) && spec_in_bounds(old(mem)@, out_component_id_ptr, 16)) && final(mem)@ == old(
                mem,
            )@,
        },
{
    if out_node_id_ptr < 0 || out_component_id_ptr < 0 {
        return Err(CoreError::MemoryFault);
    }
    let np = out_node_id_ptr as usize;
    let cp = out_component_id_ptr as usize;
    if np > mem.len() || mem.len() - np < 16 || cp > mem.len() || mem.len() - cp < 16 {
        return Err(CoreError::MemoryFault);
    }
    store_bytes(mem, np, api.host.instance_id.node_id.as_slice());
    store_bytes(mem, cp, api.host.instance_id.function_id.as_slice());
    Ok(())
}

/// The fixed discriminants a bridged call returns to the guest.
pub open spec fn spec_call_ret_code(ret: CallRet) -> i32 {
    match ret {
        CallRet::NoReply => 0,
        CallRet::Reply(_) => 1,
        CallRet::Error => 2,
    }
}

/// The discriminant for a reply-less outcome; a `Reply` outcome returns its
/// discriminant through `write_call_reply`, which also moves the data.
pub fn call_ret_code(ret: &CallRet) -> (r: i32)
    ensures
        r == spec_call_ret_code(*ret),
{
    match ret {
        CallRet::NoReply => 0,
        CallRet::Reply(_) => 1,
        CallRet::Error => 2,
    }
}

/// Completes a call that got a reply: the reply bytes go to `data_ptr`, the
/// guest-allocated buffer sized for them; the pointer, as 4 little-endian
/// bytes, goes to the first output slot and the byte length, as 8
/// little-endian bytes, to the second. All three regions are checked before
/// anything is written; on `MemoryFault` guest memory is untouched.
pub fn write_call_reply(mem: &mut Vec<u8>, data: &String, data_ptr: i32, out_ptr_ptr: i32,
    out_len_ptr: i32) -> (r: Result<i32, CoreError>)
    ensures
        match r {
            Ok(code) => code == 1 && spec_in_bounds(old(mem)@, out_ptr_ptr, 4) && spec_in_bounds(
                old(mem)@,
                out_len_ptr,
                8,
            ) && 0 <= data_ptr && data_ptr + encode_utf8(data@).len() <= old(mem)@.len()
                && final(mem)@ == splice_bytes(
                splice_bytes(
                    splice_bytes(old(mem)@, data_ptr as int, encode_utf8(data@)),
                    out_ptr_ptr as int,
                    le_seq(data_ptr as nat, 4),
                ),
                out_len_ptr as int,
                le_seq(encode_utf8(data@).len(), 8),
            ),
            Err(e) => e == CoreError::MemoryFault && final(mem)@ == old(mem)@ && !(spec_in_bounds(
                old(mem)@,
                out_ptr_ptr,
                4,
            ) && spec_in_bounds(old(mem)@, out_len_ptr, 8) && 0 <= data_ptr && data_ptr
                + encode_utf8(data@).len() <= old(mem)@.len()),
        },
{
    let bytes = data.as_str().as_bytes();
    let blen = bytes.len();
    if data_ptr < 0 || out_ptr_ptr < 0 || out_len_ptr < 0 {
        return Err(CoreError::MemoryFault);
    }
    let dp = data_ptr as usize;
    let pp = out_ptr_ptr as usize;
    let lp = out_len_ptr as usize;
    if dp > mem.len() || mem.len() - dp < blen {
        return Err(CoreError::MemoryFault);
    }
    if pp > mem.len() || mem.len() - pp < 4 {
        return Err(CoreError::MemoryFault);
    }
    if lp > mem.len() || mem.len() - lp < 8 {
        return Err(CoreError::MemoryFault);
    }
    store_bytes(mem, dp, bytes);
    store_le(mem, pp, data_ptr as u64, 4);
    store_le(mem, lp, blen as u64, 8);
    Ok(1)
}

} // verus!
