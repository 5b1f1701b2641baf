use edgeless_core::function_instance::{
    ApiFunctionClassSpecification, ApiFunctionId, FunctionClassSpecification, FunctionId,
    FunctonInstanceConverters, SpawnFunctionRequest,
};

fn sample_function_id(seed: u8) -> FunctionId {
    let mut node_id = [0u8; 16];
    let mut function_id = [0u8; 16];
    for k in 0..16 {
        node_id[k] = seed.wrapping_add(k as u8);
        function_id[k] = seed.wrapping_add(40 + k as u8);
    }
    FunctionId { node_id, function_id }
}

fn sample_class() -> FunctionClassSpecification {
    FunctionClassSpecification {
        function_class_id: "http_ingress".to_string(),
        function_class_type: "RUST_WASM".to_string(),
        function_class_version: "0.1".to_string(),
        function_class_inlude_code: vec![1, 2, 3],
        output_callback_declarations: vec!["success_cb".to_string(), "failure_cb".to_string()],
    }
}

#[test]
fn serialize_function_id_prints_hyphenated_text() {
    let fid = FunctionId {
        node_id: [
            0x55, 0x0e, 0x84, 0x00, 0xe2, 0x9b, 0x41, 0xd4, 0xa7, 0x16, 0x44, 0x66, 0x55, 0x44,
            0x00, 0x00,
        ],
        function_id: [0u8; 16],
    };
    let api = FunctonInstanceConverters::serialize_function_id(&fid);
    assert_eq!(api.node_id, "550e8400-e29b-41d4-a716-446655440000");
    assert_eq!(api.function_id, "00000000-0000-0000-0000-000000000000");
}

#[test]
fn parse_function_id_reads_hyphenated_text() {
    let api = ApiFunctionId {
        node_id: "550e8400-e29b-41d4-a716-446655440000".to_string(),
        function_id: "00000000-0000-0000-0000-000000000001".to_string(),
    };
    let fid = FunctonInstanceConverters::try_parse_function_id(&api).unwrap();
    assert_eq!(
        fid.node_id,
        [0x55, 0x0e, 0x84, 0x00, 0xe2, 0x9b, 0x41, 0xd4, 0xa7, 0x16, 0x44, 0x66, 0x55, 0x44, 0x00,
            0x00]
    );
    assert_eq!(fid.function_id[15], 1);
}

#[test]
fn parse_rejects_text_that_names_no_id() {
    let api = ApiFunctionId {
        node_id: "not-an-identifier".to_string(),
        function_id: "00000000-0000-0000-0000-000000000001".to_string(),
    };
    assert!(FunctonInstanceConverters::try_parse_function_id(&api).is_none());
}

#[test]
fn function_id_round_trip() {
    let fid = sample_function_id(9);
    let api = FunctonInstanceConverters::serialize_function_id(&fid);
    let back = FunctonInstanceConverters::try_parse_function_id(&api).unwrap();
    assert_eq!(fid, back);
}

#[test]
fn class_specification_round_trip() {
    let class = sample_class();
    let api = FunctonInstanceConverters::serialize_function_class_specification(&class);
    assert_eq!(api.function_class_inline_code, Some(vec![1, 2, 3]));
    let back = FunctonInstanceConverters::parse_function_class_specification(&api);
    assert_eq!(class, back);
}

#[test]
fn absent_inline_code_parses_to_empty() {
    let api = ApiFunctionClassSpecification {
        function_class_id: "c".to_string(),
        function_class_type: "t".to_string(),
        function_class_version: "v".to_string(),
        function_class_inline_code: None,
        output_callback_declarations: Vec::new(),
    };
    let class = FunctonInstanceConverters::parse_function_class_specification(&api);
    assert!(class.function_class_inlude_code.is_empty());
}

#[test]
fn spawn_request_round_trip() {
    let req = SpawnFunctionRequest {
        function_id: Some(sample_function_id(1)),
        code: sample_class(),
        output_callback_definitions: vec![
            ("success_cb".to_string(), sample_function_id(2)),
            ("failure_cb".to_string(), sample_function_id(3)),
        ],
        return_continuation: sample_function_id(4),
        annotations: vec![("k".to_string(), "v".to_string())],
    };
    let api = FunctonInstanceConverters::serialize_spawn_function_request(&req);
    let back = FunctonInstanceConverters::try_parse_api_request(&api).unwrap();
    assert_eq!(req, back);
}

#[test]
fn request_without_code_parses_to_none() {
    let req = SpawnFunctionRequest {
        function_id: None,
        code: sample_class(),
        output_callback_definitions: Vec::new(),
        return_continuation: sample_function_id(4),
        annotations: Vec::new(),
    };
    let mut api = FunctonInstanceConverters::serialize_spawn_function_request(&req);
    api.code = None;
    assert!(FunctonInstanceConverters::try_parse_api_request(&api).is_none());
}

#[test]
fn request_with_bad_callback_id_is_refused() {
    let req = SpawnFunctionRequest {
        function_id: None,
        code: sample_class(),
        output_callback_definitions: vec![("cb".to_string(), sample_function_id(2))],
        return_continuation: sample_function_id(4),
        annotations: Vec::new(),
    };
    let mut api = FunctonInstanceConverters::serialize_spawn_function_request(&req);
    api.output_callback_definitions[0].1.node_id = "garbage".to_string();
    assert!(FunctonInstanceConverters::try_parse_api_request(&api).is_none());
}
