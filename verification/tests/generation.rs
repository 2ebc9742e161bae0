use cuda_over_ip::contract::build_contracts;
use cuda_over_ip::descriptor::{FunctionDescription, FunctionParameter, ParameterDirection};
use cuda_over_ip::header::{CFunction, CParam, CType, EnumDef, EnumElement, NamedCFunction};
use cuda_over_ip::schema::{call_message, result_message};
use cuda_over_ip::schema_text::{
    c_to_protobuf_type, generate_protobuf, generate_protobuf_enums, generate_protobuf_functions,
    generate_protobuf_header,
};
use cuda_over_ip::stub_text::{
    c_type_to_rust, generate_client, generate_high_level_handle_call_function, generate_server,
};

fn init_with_flags_contracts() -> Vec<cuda_over_ip::contract::FunctionDef> {
    let descs = vec![FunctionDescription {
        name: String::from("initWithFlags"),
        id: 2,
        params: vec![FunctionParameter {
            name: String::from("flags"),
            direction: ParameterDirection::IN,
        }],
    }];
    let funcs = vec![NamedCFunction {
        name: String::from("initWithFlags"),
        def: CFunction {
            return_type: CType::Elaborated { name: String::from("nvmlReturn_t") },
            params: vec![CParam { name: String::from("flags"), ty: CType::UInt }],
        },
    }];
    build_contracts(&descs, &funcs).unwrap()
}

#[test]
fn protobuf_header_is_fixed() {
    assert_eq!(
        generate_protobuf_header(),
        "syntax = \"proto3\";\n\npackage protocol;\n\n"
    );
}

#[test]
fn protobuf_type_mapping() {
    assert_eq!(c_to_protobuf_type(&CType::UInt), "uint32");
    assert_eq!(
        c_to_protobuf_type(&CType::Elaborated { name: String::from("nvmlReturn_t") }),
        "nvmlReturn_t"
    );
}

#[test]
fn rust_type_mapping() {
    assert_eq!(c_type_to_rust(&CType::UInt), "u32");
    assert_eq!(
        c_type_to_rust(&CType::Elaborated { name: String::from("nvmlReturn_t") }),
        "i32"
    );
}

#[test]
fn protobuf_enums_render_exactly() {
    let enums = vec![EnumDef {
        name: String::from("nvmlReturn_t"),
        elements: vec![
            EnumElement { name: String::from("NVML_SUCCESS"), explicit_value: Some(0) },
            EnumElement { name: String::from("NVML_IMPLICIT"), explicit_value: None },
            EnumElement { name: String::from("NVML_NEGATIVE"), explicit_value: Some(-3) },
            EnumElement { name: String::from("NVML_ERROR_UNKNOWN"), explicit_value: Some(999) },
        ],
    }];
    let mut expected = String::new();
    expected.push_str("enum nvmlReturn_t {\n");
    expected.push_str("  NVML_SUCCESS = 0;\n");
    expected.push_str("  NVML_IMPLICIT;\n");
    expected.push_str("  NVML_NEGATIVE = -3;\n");
    expected.push_str("  NVML_ERROR_UNKNOWN = 999;\n");
    expected.push_str("}\n");
    assert_eq!(generate_protobuf_enums(&enums), expected);
}

#[test]
fn protobuf_functions_render_exactly() {
    let contracts = init_with_flags_contracts();
    let mut expected = String::new();
    expected.push_str("message initWithFlagsFuncCall {\n");
    expected.push_str("  uint32 flags = 1;\n");
    expected.push_str("}\n");
    expected.push_str("\n");
    expected.push_str("message initWithFlagsFuncResult {\n");
    expected.push_str("  nvmlReturn_t return = 1;\n");
    expected.push_str("}\n");
    expected.push_str("\n");
    expected.push_str("message FuncCall {\n");
    expected.push_str("  oneof type {\n");
    expected.push_str("    initWithFlagsFuncCall initWithFlagsFuncCall = 1;\n");
    expected.push_str("  }\n");
    expected.push_str("}\n");
    expected.push_str("\n");
    expected.push_str("message FuncResult {\n");
    expected.push_str("  oneof type {\n");
    expected.push_str("    initWithFlagsFuncResult initWithFlagsFuncResult = 1;\n");
    expected.push_str("  }\n");
    expected.push_str("}\n");
    assert_eq!(generate_protobuf_functions(&contracts), expected);
}

#[test]
fn protobuf_file_is_header_enums_functions() {
    let contracts = init_with_flags_contracts();
    let enums: Vec<EnumDef> = vec![];
    let text = generate_protobuf(&enums, &contracts);
    assert!(text.starts_with("syntax = \"proto3\";\n"));
    assert!(text.contains("message initWithFlagsFuncCall {"));
    assert!(text.ends_with("}\n"));
}

#[test]
fn generation_is_deterministic() {
    let contracts = init_with_flags_contracts();
    assert_eq!(generate_client(&contracts), generate_client(&contracts));
    assert_eq!(generate_server(&contracts), generate_server(&contracts));
    let enums: Vec<EnumDef> = vec![];
    assert_eq!(
        generate_protobuf(&enums, &contracts),
        generate_protobuf(&enums, &contracts)
    );
}

#[test]
fn call_message_holds_exactly_in_parameters_at_their_positions() {
    let descs = vec![FunctionDescription {
        name: String::from("f"),
        id: 1,
        params: vec![
            FunctionParameter { name: String::from("a"), direction: ParameterDirection::IN },
            FunctionParameter { name: String::from("b"), direction: ParameterDirection::OUT },
            FunctionParameter { name: String::from("c"), direction: ParameterDirection::IN },
        ],
    }];
    let funcs = vec![NamedCFunction {
        name: String::from("f"),
        def: CFunction {
            return_type: CType::Elaborated { name: String::from("nvmlReturn_t") },
            params: vec![
                CParam { name: String::from("a"), ty: CType::UInt },
                CParam { name: String::from("b"), ty: CType::UInt },
                CParam { name: String::from("c"), ty: CType::UInt },
            ],
        },
    }];
    let contracts = build_contracts(&descs, &funcs).unwrap();
    let call = call_message(&contracts[0]);
    assert_eq!(call.fields.len(), 2);
    assert_eq!(call.fields[0].name, "a");
    assert_eq!(call.fields[0].number, 1);
    assert_eq!(call.fields[1].name, "c");
    assert_eq!(call.fields[1].number, 3);
}

#[test]
fn result_message_holds_only_the_return_field() {
    let contracts = init_with_flags_contracts();
    let result = result_message(&contracts[0]);
    assert_eq!(result.fields.len(), 1);
    assert_eq!(result.fields[0].name, "return");
    assert_eq!(result.fields[0].number, 1);
}

#[test]
fn client_renders_exactly() {
    let contracts = init_with_flags_contracts();
    let mut expected = String::new();
    expected.push_str("mod non_generated;\n");
    expected.push_str("use std::io::{IoSlice, IoSliceMut};\n");
    expected.push_str("use byteorder::ReadBytesExt;\n");
    expected.push_str("use cuda_over_ip_protocol::protocol;\n");
    expected.push_str("use cuda_over_ip_protocol::protocol::{func_result, func_call, FuncCall};\n");
    expected.push_str(
        "use crate::non_generated::{as_u8_slice, u8_slice_as_value, send_call, read_result};\n",
    );
    expected.push_str("\n");
    expected.push_str("#[no_mangle]\n");
    expected.push_str("pub unsafe extern \"C\" fn initWithFlags(flags: u32) -> protocol::NvmlReturnT {\n");
    expected.push_str("    let mut write_guard = non_generated::WRITER_AND_READER.write();\n");
    expected.push_str("    let (buf_writer, buf_reader) = match write_guard.get_mut() {\n");
    expected.push_str("        Ok(r) => r,\n");
    expected.push_str("        Err(_) => panic!(\"poisoned\"),\n");
    expected.push_str("    };\n");
    expected.push_str("    let call_id_be: u32 = 2_u32.to_be();\n");
    expected.push_str("    let mut in_slices: Vec<IoSlice> = Vec::new();\n");
    expected.push_str("    in_slices.push(IoSlice::new(as_u8_slice(&call_id_be)));\n");
    expected.push_str("    in_slices.push(IoSlice::new(as_u8_slice(&flags)));\n");
    expected.push_str("    send_call(buf_writer, in_slices);\n");
    expected.push_str("    let mut out_slices: Vec<IoSliceMut> = Vec::new();\n");
    expected.push_str("    let mut result_vec = vec![0_u8; 4];\n");
    expected.push_str("    out_slices.push(IoSliceMut::new(result_vec.as_mut_slice()));\n");
    expected.push_str("    read_result(buf_reader, out_slices);\n");
    expected.push_str("    let result: i32 = u8_slice_as_value(&result_vec);\n");
    expected.push_str("    protocol::NvmlReturnT::try_from(result).unwrap()\n");
    expected.push_str("}\n");
    expected.push_str("\n");
    assert_eq!(generate_client(&contracts), expected);
}

#[test]
fn server_renders_exactly() {
    let contracts = init_with_flags_contracts();
    let mut expected = String::new();
    expected.push_str("use libloading::Library;\n");
    expected.push_str("use cuda_over_ip_protocol::protocol;\n");
    expected.push_str(
        "use cuda_over_ip_protocol::protocol::{func_result, func_call, FuncCall, FuncResult};\n",
    );
    expected.push_str("\n");
    expected.push_str(
        "pub(crate) fn handle_call(call: FuncCall, libnvidia: &Library) -> Result<FuncResult, String> {\n",
    );
    expected.push_str("    match call.r#type.ok_or(\"No type provided\")? {\n");
    expected.push_str(
        "        func_call::Type::InitWithFlagsFuncCall(c) => handle_InitWithFlags(c, &libnvidia),\n",
    );
    expected.push_str("    }\n");
    expected.push_str("}\n");
    expected.push_str("\n");
    expected.push_str("#[allow(non_snake_case)]\n");
    expected.push_str(
        "fn handle_InitWithFlags(call: protocol::InitWithFlagsFuncCall, libnvidia: &Library) -> Result<FuncResult, String> {\n",
    );
    expected.push_str("    let func: libloading::Symbol<unsafe extern fn(u32) -> i32> = unsafe {\n");
    expected.push_str("        libnvidia.get(b\"initWithFlags\").unwrap()\n");
    expected.push_str("    };\n");
    expected.push_str("    println!(\"{:?}\", func);\n");
    expected.push_str("    let result = unsafe { func(call.flags) };\n");
    expected.push_str("    Ok(FuncResult {\n");
    expected.push_str("        r#type: Some(\n");
    expected.push_str(
        "            func_result::Type::InitWithFlagsFuncResult(protocol::InitWithFlagsFuncResult {\n",
    );
    expected.push_str("                r#return: result,\n");
    expected.push_str("            }),\n");
    expected.push_str("        ),\n");
    expected.push_str("    })\n");
    expected.push_str("}\n");
    assert_eq!(generate_server(&contracts), expected);
}

#[test]
fn dispatch_entry_renders_one_arm_per_contract() {
    let contracts = init_with_flags_contracts();
    let text = generate_high_level_handle_call_function(&contracts);
    assert!(text.contains("ok_or(\"No type provided\")"));
    assert!(text.contains("func_call::Type::InitWithFlagsFuncCall(c) => handle_InitWithFlags(c, &libnvidia),"));
}

#[test]
fn client_marshals_in_parameters_in_declaration_order() {
    // The description lists the parameters in the opposite order of the
    // native declaration; the generated marshaling must follow the
    // declaration.
    let descs = vec![FunctionDescription {
        name: String::from("setPair"),
        id: 3,
        params: vec![
            FunctionParameter { name: String::from("second"), direction: ParameterDirection::IN },
            FunctionParameter { name: String::from("first"), direction: ParameterDirection::IN },
        ],
    }];
    let funcs = vec![NamedCFunction {
        name: String::from("setPair"),
        def: CFunction {
            return_type: CType::Elaborated { name: String::from("nvmlReturn_t") },
            params: vec![
                CParam { name: String::from("first"), ty: CType::UInt },
                CParam { name: String::from("second"), ty: CType::UInt },
            ],
        },
    }];
    let contracts = build_contracts(&descs, &funcs).unwrap();
    let text = generate_client(&contracts);
    let first_push = text.find("as_u8_slice(&first)").unwrap();
    let second_push = text.find("as_u8_slice(&second)").unwrap();
    assert!(first_push < second_push);
}

#[test]
fn client_sends_the_identifier_big_endian() {
    let contracts = init_with_flags_contracts();
    let text = generate_client(&contracts);
    assert!(text.contains("let call_id_be: u32 = 2_u32.to_be();"));
    assert!(text.contains("in_slices.push(IoSlice::new(as_u8_slice(&call_id_be)));"));
}
