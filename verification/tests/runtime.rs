use cuda_over_ip::codec::{
    decode_func_call, decode_func_result, encode_func_call, encode_func_result,
};
use cuda_over_ip::contract::build_contracts;
use cuda_over_ip::descriptor::{FunctionDescription, FunctionParameter, ParameterDirection};
use cuda_over_ip::dispatch::{plan_call, symbol_name, wrap_result, DispatchError};
use cuda_over_ip::framing::{encode_frame, read_frame, FrameError};
use cuda_over_ip::header::{CFunction, CParam, CType, NamedCFunction};
use cuda_over_ip::minimal::{
    cu_driver_get_version_parse_response, cu_driver_get_version_request,
    cu_driver_get_version_response, decode_minimal_call, decode_minimal_response,
    encode_minimal_call, encode_minimal_response, out_types, parse_minimal_call_id, MinimalError,
    WireValue,
};
use cuda_over_ip::rpc::RPC;
use cuda_over_ip::wire::{
    FuncCall, FuncCallType, FuncResult, FuncResultType, NvmlInitWithFlagsFuncCall,
    NvmlShutdownFuncCall,
};

#[test]
fn conversion() {
    let original = RPC::cuDriverGetVersion;
    let v: i32 = RPC::cuDriverGetVersion.id();
    let rpc = RPC::parse(v);
    assert_eq!(rpc, original);
}

#[test]
fn unknown_rpc_id_is_rejected() {
    assert_eq!(RPC::try_parse(0), None);
    assert_eq!(RPC::try_parse(99), None);
    assert_eq!(RPC::try_parse(1), Some(RPC::cuDriverGetVersion));
}

#[test]
fn call_envelope_round_trips() {
    for flags in [0u32, 1, 7, 127, 128, 300, u32::MAX] {
        let call = FuncCall {
            call_type: Some(FuncCallType::NvmlInitWithFlags(NvmlInitWithFlagsFuncCall { flags })),
        };
        let bytes = encode_func_call(&call);
        assert_eq!(decode_func_call(&bytes), Some(call));
    }
    let shutdown = FuncCall {
        call_type: Some(FuncCallType::NvmlShutdown(NvmlShutdownFuncCall {})),
    };
    let bytes = encode_func_call(&shutdown);
    assert_eq!(decode_func_call(&bytes), Some(shutdown));
}

#[test]
fn result_envelope_round_trips() {
    for value in [0i32, 42, -5, i32::MIN, i32::MAX] {
        let result = wrap_result(
            &FuncCallType::NvmlInitWithFlags(NvmlInitWithFlagsFuncCall { flags: 0 }),
            value,
        );
        let bytes = encode_func_result(&result);
        assert_eq!(decode_func_result(&bytes), Some(result));
        let result = wrap_result(&FuncCallType::NvmlShutdown(NvmlShutdownFuncCall {}), value);
        let bytes = encode_func_result(&result);
        assert_eq!(decode_func_result(&bytes), Some(result));
    }
}

#[test]
fn empty_envelope_decodes_to_no_variant() {
    let empty: Vec<u8> = vec![];
    assert_eq!(decode_func_call(&empty), Some(FuncCall { call_type: None }));
}

#[test]
fn no_variant_yields_reported_error_not_crash() {
    let call = FuncCall { call_type: None };
    assert_eq!(plan_call(&call), Err(DispatchError::NoTypeProvided));
}

#[test]
fn malformed_envelope_is_rejected() {
    assert_eq!(decode_func_call(&vec![0xffu8]), None);
    assert_eq!(decode_func_call(&vec![0x0au8]), None);
    assert_eq!(decode_func_call(&vec![0x0au8, 2, 8]), None);
    assert_eq!(decode_func_call(&vec![0x12u8, 1]), None);
    assert_eq!(decode_func_result(&vec![0x0au8, 1, 8]), None);
}

#[test]
fn dispatch_returns_result_tagged_for_the_called_function() {
    let call = FuncCall {
        call_type: Some(FuncCallType::NvmlInitWithFlags(NvmlInitWithFlagsFuncCall { flags: 0 })),
    };
    let planned = plan_call(&call).unwrap();
    assert_eq!(symbol_name(&planned), "nvmlInitWithFlags");
    // A stub native library whose initialization entry point always
    // returns the same fixed value.
    let stub_native_return: i32 = 42;
    let result = wrap_result(&planned, stub_native_return);
    match result.result_type {
        Some(FuncResultType::NvmlInitWithFlags(r)) => assert_eq!(r.return_value, 42),
        other => panic!("wrong result variant: {:?}", other),
    }
}

#[test]
fn shutdown_dispatches_to_its_own_symbol() {
    let call = FuncCall {
        call_type: Some(FuncCallType::NvmlShutdown(NvmlShutdownFuncCall {})),
    };
    let planned = plan_call(&call).unwrap();
    assert_eq!(symbol_name(&planned), "nvmlShutdown");
    let result = wrap_result(&planned, 0);
    assert!(matches!(
        result.result_type,
        Some(FuncResultType::NvmlShutdown(_))
    ));
}

#[test]
fn frame_round_trips() {
    let payload = vec![1u8, 2, 3, 4, 5];
    let framed = encode_frame(&payload);
    assert_eq!(framed.len(), 9);
    assert_eq!(&framed[..4], &[0, 0, 0, 5]);
    let (read_back, next) = read_frame(&framed, 0).unwrap();
    assert_eq!(read_back, payload);
    assert_eq!(next, 9);
}

#[test]
fn truncated_payload_is_an_error_not_a_partial_decode() {
    let payload = vec![1u8, 2, 3, 4, 5];
    let mut framed = encode_frame(&payload);
    framed.truncate(7);
    assert_eq!(read_frame(&framed, 0), Err(FrameError::TruncatedPayload));
}

#[test]
fn immediate_eof_is_a_clean_disconnect() {
    let empty: Vec<u8> = vec![];
    assert_eq!(read_frame(&empty, 0), Err(FrameError::CleanEof));
    let two_bytes = vec![0u8, 0];
    assert_eq!(read_frame(&two_bytes, 0), Err(FrameError::TruncatedHeader));
}

#[test]
fn eof_at_frame_boundary_is_clean_after_a_full_frame() {
    let payload = vec![9u8];
    let framed = encode_frame(&payload);
    let (_, next) = read_frame(&framed, 0).unwrap();
    assert_eq!(read_frame(&framed, next), Err(FrameError::CleanEof));
}

#[test]
fn serialized_calls_get_their_own_results_in_either_order() {
    // Two callers share one connection; the lock serializes them. In
    // whichever order their calls reach the wire, each position's result
    // answers that position's call with its own sentinel value.
    let init_call = FuncCallType::NvmlInitWithFlags(NvmlInitWithFlagsFuncCall { flags: 1 });
    let shutdown_call = FuncCallType::NvmlShutdown(NvmlShutdownFuncCall {});
    for (first, second) in [(init_call, shutdown_call), (shutdown_call, init_call)] {
        let results = [wrap_result(&first, 11), wrap_result(&second, 22)];
        for (call, result, sentinel) in
            [(first, results[0], 11), (second, results[1], 22)]
        {
            match (call, result.result_type.unwrap()) {
                (FuncCallType::NvmlInitWithFlags(_), FuncResultType::NvmlInitWithFlags(r)) => {
                    assert_eq!(r.return_value, sentinel)
                },
                (FuncCallType::NvmlShutdown(_), FuncResultType::NvmlShutdown(r)) => {
                    assert_eq!(r.return_value, sentinel)
                },
                (c, r) => panic!("cross-talk: {:?} answered by {:?}", c, r),
            }
        }
    }
}

#[test]
fn minimal_request_and_response_round_trip() {
    let values = vec![WireValue::U32(7), WireValue::I32(-9)];
    let request = encode_minimal_call(3, &values);
    assert_eq!(request.len(), 12);
    assert_eq!(&request[..4], &[0, 0, 0, 3]);

    let response = encode_minimal_response(-1, &values);
    let types = vec![
        CType::UInt,
        CType::Elaborated { name: String::from("nvmlReturn_t") },
    ];
    let (ret, out_values) = decode_minimal_response(&response, &types).unwrap();
    assert_eq!(ret, -1);
    assert_eq!(out_values, values);
}

#[test]
fn minimal_response_length_must_be_exact() {
    let types: Vec<CType> = vec![];
    assert_eq!(
        decode_minimal_response(&vec![0u8, 0, 0], &types),
        Err(MinimalError::Truncated)
    );
    assert_eq!(
        decode_minimal_response(&vec![0u8, 0, 0, 0, 9], &types),
        Err(MinimalError::TrailingBytes)
    );
}

#[test]
fn unknown_minimal_call_id_is_reported() {
    let bytes = vec![0u8, 0, 0, 99];
    assert_eq!(parse_minimal_call_id(&bytes), Err(MinimalError::UnknownId));
    let short = vec![0u8, 0];
    assert_eq!(parse_minimal_call_id(&short), Err(MinimalError::Truncated));
    let known = vec![0u8, 0, 0, 1];
    assert_eq!(parse_minimal_call_id(&known), Ok(RPC::cuDriverGetVersion));
}

#[test]
fn version_query_marshals_and_unmarshals() {
    let request = cu_driver_get_version_request();
    assert_eq!(request, vec![0u8, 0, 0, 1]);
    let response = cu_driver_get_version_response(0, 12040);
    let (ret, driver_version) = cu_driver_get_version_parse_response(&response).unwrap();
    assert_eq!(ret, 0);
    assert_eq!(driver_version, 12040);
    let mut short = response.clone();
    short.truncate(6);
    assert_eq!(
        cu_driver_get_version_parse_response(&short),
        Err(MinimalError::Truncated)
    );
}

#[test]
fn end_to_end_get_version_returns_42() {
    // Compile the contract: getVersion, id 1, no parameters, () -> int32.
    let descs = vec![FunctionDescription { name: String::from("getVersion"), id: 1, params: vec![] }];
    let funcs = vec![NamedCFunction {
        name: String::from("getVersion"),
        def: CFunction {
            return_type: CType::Elaborated { name: String::from("int32") },
            params: vec![],
        },
    }];
    let contracts = build_contracts(&descs, &funcs).unwrap();

    // Client marshals the call; the server decodes it against the set.
    let request = encode_minimal_call(1, &vec![]);
    let decoded = decode_minimal_call(&contracts, &request).unwrap();
    assert_eq!(decoded.contract_index, 0);
    assert_eq!(decoded.in_values.len(), 0);

    // A stub native getVersion returns 42; the response carries it back.
    let stub_return: i32 = 42;
    let outs = out_types(&contracts[decoded.contract_index]);
    assert_eq!(outs.len(), 0);
    let response = encode_minimal_response(stub_return, &vec![]);
    let (ret, _) = decode_minimal_response(&response, &outs).unwrap();
    assert_eq!(ret, 42);
}

#[test]
fn end_to_end_init_with_flags_echoes_7() {
    // Compile the contract: initWithFlags, id 2, one IN parameter,
    // (uint32) -> int32.
    let descs = vec![FunctionDescription {
        name: String::from("initWithFlags"),
        id: 2,
        params: vec![FunctionParameter {
            name: String::from("flags"),
            direction: ParameterDirection::IN,
        }],
    }];
    let funcs = vec![NamedCFunction {
        name: String::from("initWithFlags"),
        def: CFunction {
            return_type: CType::Elaborated { name: String::from("int32") },
            params: vec![CParam { name: String::from("flags"), ty: CType::UInt }],
        },
    }];
    let contracts = build_contracts(&descs, &funcs).unwrap();

    // Client marshals flags = 7; the server decodes the same value.
    let request = encode_minimal_call(2, &vec![WireValue::U32(7)]);
    let decoded = decode_minimal_call(&contracts, &request).unwrap();
    assert_eq!(decoded.contract_index, 0);
    assert_eq!(decoded.in_values, vec![WireValue::U32(7)]);

    // A stub native initWithFlags echoes its argument.
    let stub_return: i32 = match decoded.in_values[0] {
        WireValue::U32(x) => x as i32,
        WireValue::I32(x) => x,
    };
    let response = encode_minimal_response(stub_return, &vec![]);
    let outs = out_types(&contracts[decoded.contract_index]);
    let (ret, _) = decode_minimal_response(&response, &outs).unwrap();
    assert_eq!(ret, 7);
}

#[test]
fn minimal_call_against_unknown_contract_id_is_reported() {
    let descs = vec![FunctionDescription { name: String::from("getVersion"), id: 1, params: vec![] }];
    let funcs = vec![NamedCFunction {
        name: String::from("getVersion"),
        def: CFunction {
            return_type: CType::Elaborated { name: String::from("int32") },
            params: vec![],
        },
    }];
    let contracts = build_contracts(&descs, &funcs).unwrap();
    let request = encode_minimal_call(9, &vec![]);
    match decode_minimal_call(&contracts, &request) {
        Err(MinimalError::UnknownId) => {},
        other => panic!("expected an unknown-identifier report, got {:?}", other),
    }
}

#[test]
fn framed_envelope_round_trips() {
    // The schema-based wire format: a length-prefixed frame around an
    // encoded envelope.
    let call = FuncCall {
        call_type: Some(FuncCallType::NvmlInitWithFlags(NvmlInitWithFlagsFuncCall { flags: 300 })),
    };
    let framed = encode_frame(&encode_func_call(&call));
    let (payload, next) = read_frame(&framed, 0).unwrap();
    assert_eq!(next, framed.len());
    assert_eq!(decode_func_call(&payload), Some(call));
}

#[test]
fn framed_stream_carries_consecutive_envelopes() {
    let first = FuncCall {
        call_type: Some(FuncCallType::NvmlInitWithFlags(NvmlInitWithFlagsFuncCall { flags: 1 })),
    };
    let second = FuncCall {
        call_type: Some(FuncCallType::NvmlShutdown(NvmlShutdownFuncCall {})),
    };
    let mut stream = encode_frame(&encode_func_call(&first));
    stream.extend(encode_frame(&encode_func_call(&second)));
    let (p1, mid) = read_frame(&stream, 0).unwrap();
    let (p2, end) = read_frame(&stream, mid).unwrap();
    assert_eq!(decode_func_call(&p1), Some(first));
    assert_eq!(decode_func_call(&p2), Some(second));
    assert_eq!(read_frame(&stream, end), Err(FrameError::CleanEof));
}

#[test]
fn minimal_call_with_missing_parameter_bytes_is_truncated() {
    let descs = vec![FunctionDescription {
        name: String::from("initWithFlags"),
        id: 2,
        params: vec![FunctionParameter {
            name: String::from("flags"),
            direction: ParameterDirection::IN,
        }],
    }];
    let funcs = vec![NamedCFunction {
        name: String::from("initWithFlags"),
        def: CFunction {
            return_type: CType::Elaborated { name: String::from("int32") },
            params: vec![CParam { name: String::from("flags"), ty: CType::UInt }],
        },
    }];
    let contracts = build_contracts(&descs, &funcs).unwrap();
    let mut request = encode_minimal_call(2, &vec![WireValue::U32(7)]);
    request.truncate(6);
    match decode_minimal_call(&contracts, &request) {
        Err(MinimalError::Truncated) => {},
        other => panic!("expected a truncation report, got {:?}", other),
    }
    let mut long = encode_minimal_call(2, &vec![WireValue::U32(7)]);
    long.push(0);
    match decode_minimal_call(&contracts, &long) {
        Err(MinimalError::TrailingBytes) => {},
        other => panic!("expected a trailing-bytes report, got {:?}", other),
    }
}
