use edgeless_core::errors::CoreError;
use edgeless_core::invocation::{Event, EventData, EventMetadata, EventTimestamp, InstanceId};

fn sample_instance(seed: u8) -> InstanceId {
    let mut node_id = [0u8; 16];
    let mut function_id = [0u8; 16];
    for k in 0..16 {
        node_id[k] = seed.wrapping_add(k as u8);
        function_id[k] = seed.wrapping_mul(3).wrapping_add(k as u8);
    }
    InstanceId { node_id, function_id }
}

fn sample_event(metadata: Option<EventMetadata>, data: EventData<u64>) -> Event<u64> {
    Event {
        target: sample_instance(7),
        source: sample_instance(42),
        stream_id: 99,
        metadata,
        data,
        created: EventTimestamp { secs: -3, nsecs: 123456789 },
    }
}

#[test]
fn size_matches() {
    let mut buffer = [0u8; 32];

    let id = EventMetadata::from(1234, 45678);

    let encoded = id.encode();
    let len = encoded.len();
    assert!(len <= 32);
    buffer[..len].copy_from_slice(&encoded);

    let id2 = EventMetadata::decode(&buffer[..len].to_vec()).unwrap();

    assert_eq!(id, id2);
}

#[test]
fn event_round_trip_with_metadata() {
    let meta = EventMetadata::from(0x0102030405060708090a0b0c0d0e0f10u128, 77);
    let e = sample_event(Some(meta), EventData::Call(123456789012345u64));
    let encoded = e.encode();
    let decoded = Event::<u64>::decode(&encoded).unwrap();
    assert_eq!(e, decoded);
}

#[test]
fn event_round_trip_without_metadata() {
    let e = sample_event(None, EventData::Cast(5));
    let encoded = e.encode();
    let decoded = Event::<u64>::decode(&encoded).unwrap();
    assert_eq!(e, decoded);
}

#[test]
fn event_round_trip_high_word_zero() {
    // A trace id whose high 64-bit word is zero still round-trips bit-exactly.
    let meta = EventMetadata::from(1u128, 0);
    let e = sample_event(Some(meta), EventData::CallRet(0));
    let decoded = Event::<u64>::decode(&e.encode()).unwrap();
    assert_eq!(e, decoded);
}

#[test]
fn event_round_trip_all_kinds() {
    for data in [
        EventData::Call(1u64),
        EventData::Cast(2),
        EventData::CallRet(3),
        EventData::CallNoRet,
        EventData::Error,
    ] {
        let e = sample_event(None, data);
        let decoded = Event::<u64>::decode(&e.encode()).unwrap();
        assert_eq!(e, decoded);
    }
}

#[test]
fn decode_rejects_truncated_buffer() {
    let e = sample_event(None, EventData::Call(1u64));
    let mut encoded = e.encode();
    encoded.pop();
    assert_eq!(Event::<u64>::decode(&encoded), Err(CoreError::MalformedEncoding));
}

#[test]
fn decode_rejects_trailing_bytes() {
    let e = sample_event(None, EventData::Call(1u64));
    let mut encoded = e.encode();
    encoded.push(0);
    assert_eq!(Event::<u64>::decode(&encoded), Err(CoreError::MalformedEncoding));
}

#[test]
fn decode_rejects_unrecognized_tag() {
    let meta = EventMetadata::from(7, 8);
    let mut encoded = meta.encode();
    // The first field tag (a small unsigned integer, value 0) follows the
    // two-entry map head; renumbering it must be rejected, not guessed at.
    assert_eq!(encoded[1], 0);
    encoded[1] = 9;
    assert_eq!(EventMetadata::decode(&encoded), Err(CoreError::MalformedEncoding));
}

#[test]
fn decode_rejects_wrong_trace_id_size() {
    let meta = EventMetadata::from(7, 8);
    let mut encoded = meta.encode();
    // Shrink the declared size of the 16-byte trace id field and drop one
    // byte: a fixed-size field of the wrong size must fail, not zero-pad.
    assert_eq!(encoded[2], 0x50); // byte string of length 16
    encoded[2] = 0x4f; // byte string of length 15
    encoded.remove(3);
    assert_eq!(EventMetadata::decode(&encoded), Err(CoreError::MalformedEncoding));
}

#[test]
fn decode_rejects_empty_buffer() {
    assert_eq!(EventMetadata::decode(&Vec::new()), Err(CoreError::MalformedEncoding));
}

#[test]
fn metadata_new_and_convert_are_big_endian() {
    // Relies on nothing: pins the byte order of the trace id.
    let m = EventMetadata::from(0x0102030405060708090a0b0c0d0e0f10u128, 5);
    assert_eq!(
        m.trace_id,
        [1, 2, 3, 4, 5, 6, 7, 8, 9, 0x0a, 0x0b, 0x0c, 0x0d, 0x0e, 0x0f, 0x10]
    );
    assert_eq!(m.span_id, 5);
    let again = EventMetadata::new(&m.trace_id, 5);
    assert_eq!(m, again);
}

#[test]
fn to_words_splits_the_trace_id() {
    let m = EventMetadata::from(1, 0);
    assert_eq!(m.to_words(), [1, 0]);
    let m = EventMetadata::from(1u128 << 64, 0);
    assert_eq!(m.to_words(), [0, 1]);
    let m = EventMetadata::from(0x0102030405060708090a0b0c0d0e0f10u128, 0);
    assert_eq!(m.to_words(), [0x090a0b0c0d0e0f10u64, 0x0102030405060708u64]);
}

#[test]
fn into_ctx_carries_the_identifiers() {
    let m = EventMetadata::from(4242, 77);
    let ctx = m.into_ctx();
    assert_eq!(ctx.trace_id(), opentelemetry::trace::TraceId::from(4242u128));
    assert_eq!(ctx.span_id(), opentelemetry::trace::SpanId::from(77u64));
    assert!(ctx.is_sampled());
    assert!(ctx.is_remote());
}

#[test]
fn metadata_encoding_is_plain_cbor() {
    // The encoding must stay readable by any CBOR decoder: a two-entry map of
    // small integer tags to a 16-byte string and an unsigned integer.
    let m = EventMetadata::from(1234, 45678);
    let encoded = m.encode();
    let mut d = minicbor::Decoder::new(&encoded);
    assert_eq!(d.map().unwrap(), Some(2));
    assert_eq!(d.u64().unwrap(), 0);
    let trace = d.bytes().unwrap();
    assert_eq!(trace, &m.trace_id);
    assert_eq!(d.u64().unwrap(), 1);
    assert_eq!(d.u64().unwrap(), 45678);
    assert_eq!(d.position(), encoded.len());
}

#[test]
fn event_encoding_is_plain_cbor() {
    let e = sample_event(None, EventData::CallNoRet);
    let encoded = e.encode();
    let mut d = minicbor::Decoder::new(&encoded);
    assert_eq!(d.map().unwrap(), Some(6));
    assert_eq!(d.u64().unwrap(), 0); // target
    assert_eq!(d.map().unwrap(), Some(2));
    assert_eq!(d.u64().unwrap(), 0);
    assert_eq!(d.bytes().unwrap(), &e.target.node_id);
    assert_eq!(d.u64().unwrap(), 1);
    assert_eq!(d.bytes().unwrap(), &e.target.function_id);
    assert_eq!(d.u64().unwrap(), 1); // source
    assert_eq!(d.map().unwrap(), Some(2));
    assert_eq!(d.u64().unwrap(), 0);
    assert_eq!(d.bytes().unwrap(), &e.source.node_id);
    assert_eq!(d.u64().unwrap(), 1);
    assert_eq!(d.bytes().unwrap(), &e.source.function_id);
    assert_eq!(d.u64().unwrap(), 2); // stream id
    assert_eq!(d.u64().unwrap(), 99);
    assert_eq!(d.u64().unwrap(), 3); // absent metadata
    d.null().unwrap();
    assert_eq!(d.u64().unwrap(), 34); // data
    assert_eq!(d.map().unwrap(), Some(1));
    assert_eq!(d.u64().unwrap(), 3);
    d.null().unwrap();
    assert_eq!(d.u64().unwrap(), 4); // created
    assert_eq!(d.map().unwrap(), Some(2));
    assert_eq!(d.u64().unwrap(), 0);
    assert_eq!(d.i64().unwrap(), -3);
    assert_eq!(d.u64().unwrap(), 1);
    assert_eq!(d.u64().unwrap(), 123456789);
    assert_eq!(d.position(), encoded.len());
}
