use edgeless_core::errors::CoreError;
use edgeless_core::guest_api_binding::{
    call, call_raw, call_ret_code, cast, cast_raw, delayed_cast, level_from_i32, slf, sync,
    telemetry_log, write_call_reply, CallRet, GuestAPI, GuestAPIHost, LogLevel,
};
use edgeless_core::invocation::InstanceId;

/// Guest memory laid out for the raw entry points: a node id at 0, a
/// function id at 16, and a payload string at 32.
fn raw_memory(payload: &[u8]) -> Vec<u8> {
    let mut mem = vec![0u8; 64];
    for k in 0..16 {
        mem[k] = k as u8 + 1;
        mem[16 + k] = k as u8 + 100;
    }
    mem[32..32 + payload.len()].copy_from_slice(payload);
    mem
}

#[test]
fn cast_raw_reads_ids_payload_and_context() {
    let mem = raw_memory(b"hello");
    let out = cast_raw(&mem, 0, 16, 32, 5, 9, 2, 77).unwrap();
    assert_eq!(out.target.node_id[0], 1);
    assert_eq!(out.target.node_id[15], 16);
    assert_eq!(out.target.function_id[0], 100);
    assert_eq!(out.payload, "hello");
    // The recovered context is (low, high) joined big-endian: high word 2,
    // low word 9.
    let expected = (2u128 << 64) | 9;
    let mut expected_bytes = [0u8; 16];
    expected_bytes.copy_from_slice(&expected.to_be_bytes());
    assert_eq!(out.metadata.trace_id, expected_bytes);
    assert_eq!(out.metadata.span_id, 77);
}

#[test]
fn cast_raw_out_of_range_is_a_memory_fault() {
    let mem = raw_memory(b"hello");
    // Node id reaching past the end of memory.
    assert_eq!(cast_raw(&mem, 60, 16, 32, 5, 0, 0, 0), Err(CoreError::MemoryFault));
    // Negative pointer.
    assert_eq!(cast_raw(&mem, -1, 16, 32, 5, 0, 0, 0), Err(CoreError::MemoryFault));
    // Payload length overrunning memory.
    assert_eq!(cast_raw(&mem, 0, 16, 32, 1000, 0, 0, 0), Err(CoreError::MemoryFault));
    // Negative payload length.
    assert_eq!(cast_raw(&mem, 0, 16, 32, -5, 0, 0, 0), Err(CoreError::MemoryFault));
    assert_eq!(call_raw(&mem, 0, 16, 32, 1000, 0, 0, 0), Err(CoreError::MemoryFault));
}

#[test]
fn cast_raw_invalid_utf8_is_a_payload_error() {
    let mem = raw_memory(&[0xff, 0xfe, 0x41]);
    assert_eq!(cast_raw(&mem, 0, 16, 32, 3, 0, 0, 0), Err(CoreError::InvalidPayloadEncoding));
}

#[test]
fn call_raw_reads_the_same_request() {
    let mem = raw_memory(b"ping");
    let out = call_raw(&mem, 0, 16, 32, 4, 1, 0, 3).unwrap();
    assert_eq!(out.payload, "ping");
    assert_eq!(out.metadata.span_id, 3);
}

#[test]
fn alias_cast_and_call_read_alias_and_payload() {
    let mut mem = vec![0u8; 32];
    mem[0..5].copy_from_slice(b"other");
    mem[8..12].copy_from_slice(b"data");
    let out = cast(&mem, 0, 5, 8, 4, 1, 0, 2).unwrap();
    assert_eq!(out.alias, "other");
    assert_eq!(out.payload, "data");
    let out = call(&mem, 0, 5, 8, 4, 1, 0, 2).unwrap();
    assert_eq!(out.alias, "other");
    assert_eq!(out.payload, "data");
    assert_eq!(cast(&mem, 0, 64, 8, 4, 1, 0, 2), Err(CoreError::MemoryFault));
}

#[test]
fn delayed_cast_keeps_the_minimum_delay() {
    let mut mem = vec![0u8; 16];
    mem[0..3].copy_from_slice(b"abc");
    let out = delayed_cast(&mem, 1500, 0, 3, 0, 3, 0, 0, 0).unwrap();
    assert_eq!(out.delay_ms, 1500);
    assert_eq!(out.alias, "abc");
    // A negative delay reinterprets the same way a two's-complement cast does.
    let out = delayed_cast(&mem, -1, 0, 3, 0, 3, 0, 0, 0).unwrap();
    assert_eq!(out.delay_ms, u64::MAX);
}

#[test]
fn sync_hands_over_the_snapshot() {
    let mut mem = vec![0u8; 8];
    mem[0..5].copy_from_slice(b"state");
    assert_eq!(sync(&mem, 0, 5).unwrap(), "state");
    assert_eq!(sync(&mem, 0, 9), Err(CoreError::MemoryFault));
    let mem = vec![0xffu8; 4];
    assert_eq!(sync(&mem, 0, 4), Err(CoreError::InvalidPayloadEncoding));
}

#[test]
fn telemetry_log_reads_level_target_and_message() {
    let mut mem = vec![0u8; 16];
    mem[0..3].copy_from_slice(b"tgt");
    mem[4..7].copy_from_slice(b"msg");
    let lr = telemetry_log(&mem, 2, 0, 3, 4, 3).unwrap();
    assert_eq!(lr.level, LogLevel::Warn);
    assert_eq!(lr.target, "tgt");
    assert_eq!(lr.message, "msg");
    assert_eq!(telemetry_log(&mem, 2, 0, 99, 4, 3), Err(CoreError::MemoryFault));
    assert_eq!(level_from_i32(1), LogLevel::Error);
    assert_eq!(level_from_i32(5), LogLevel::Trace);
    assert_eq!(level_from_i32(0), LogLevel::Trace);
}

#[test]
fn slf_writes_the_own_identity() {
    let api = GuestAPI {
        host: GuestAPIHost {
            instance_id: InstanceId { node_id: [7u8; 16], function_id: [9u8; 16] },
        },
    };
    let mut mem = vec![0u8; 40];
    slf(&api, &mut mem, 2, 20).unwrap();
    assert_eq!(&mem[2..18], &[7u8; 16]);
    assert_eq!(&mem[20..36], &[9u8; 16]);
    // Out of range: nothing is written.
    let before = mem.clone();
    assert_eq!(slf(&api, &mut mem, 30, 0), Err(CoreError::MemoryFault));
    assert_eq!(mem, before);
}

#[test]
fn write_call_reply_moves_data_and_slots() {
    let mut mem = vec![0u8; 64];
    let data = "reply!".to_string();
    // Data buffer allocated at 40, pointer slot at 8, length slot at 16.
    let code = write_call_reply(&mut mem, &data, 40, 8, 16).unwrap();
    assert_eq!(code, 1);
    assert_eq!(&mem[40..46], b"reply!");
    assert_eq!(&mem[8..12], &40u32.to_le_bytes());
    assert_eq!(&mem[16..24], &6u64.to_le_bytes());
}

#[test]
fn write_call_reply_checks_before_writing() {
    let mut mem = vec![0u8; 16];
    let before = mem.clone();
    let data = "too long for this memory".to_string();
    assert_eq!(write_call_reply(&mut mem, &data, 0, 4, 8), Err(CoreError::MemoryFault));
    assert_eq!(mem, before);
    let data = "x".to_string();
    // Length slot out of range.
    assert_eq!(write_call_reply(&mut mem, &data, 0, 4, 12), Err(CoreError::MemoryFault));
    assert_eq!(mem, before);
}

#[test]
fn call_ret_codes_are_fixed() {
    assert_eq!(call_ret_code(&CallRet::NoReply), 0);
    assert_eq!(call_ret_code(&CallRet::Reply("x".to_string())), 1);
    assert_eq!(call_ret_code(&CallRet::Error), 2);
}
