use edgeless_core::bytes::{join_trace_id, split_trace_id};
use edgeless_core::metadata::Metadata;

#[test]
fn test_f() {
    let words: [u64; 2] = split_trace_id(1u128);
    assert_eq!(1, words[0]);
    assert_eq!(0, words[1]);
    let mut m = Metadata::new();
    m.set_metadata(1, 0, 99, 99);
    assert_eq!(1, m.trace_id);
    m.set_metadata(0, 1, 99, 99);
    assert_eq!(1u128 << 64, m.trace_id);
    let words: [u64; 2] = split_trace_id(1234u128);
    m.set_metadata(words[0], words[1], 99, 99);
    assert_eq!(1234u128, m.trace_id);
}

#[test]
fn accessors_read_back_what_was_set() {
    let mut m = Metadata::new();
    assert_eq!(0, m.get_metadata_trace_id_low());
    assert_eq!(0, m.get_metadata_trace_id_high());
    m.set_metadata(12, 34, 45, 67);
    assert_eq!(12, m.get_metadata_trace_id_low());
    assert_eq!(34, m.get_metadata_trace_id_high());
    assert_eq!(45, m.get_metadata_span_id());
    assert_eq!(67, m.get_metadata_parent_id());
}

#[test]
fn split_examples() {
    assert_eq!(split_trace_id(1u128), [1, 0]);
    assert_eq!(split_trace_id(1u128 << 64), [0, 1]);
}

#[test]
fn join_undoes_split() {
    for v in [
        0u128,
        1,
        1 << 64,
        u128::MAX,
        0x0102030405060708090a0b0c0d0e0f10,
    ] {
        let words = split_trace_id(v);
        assert_eq!(join_trace_id(words[0], words[1]), v);
    }
}
