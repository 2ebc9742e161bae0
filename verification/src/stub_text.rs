//! The client and server stub sources rendered from a contract set.
//!
//! The client artifact exposes one natively callable entry point per
//! contract that marshals the call onto the shared connection; the server
//! artifact exposes one dispatch entry and one handler per contract that
//! resolves the native symbol under the contract's exact signature and
//! invokes it. Both renderings are pure functions of the contract set.

use crate::casing::{c_to_rust_name, upper_camel_of};
use crate::contract::{spec_contract_wf, FunctionDef, FunctionDefV};
use crate::decimal::{spec_dec_digits, u64_to_dec};
use crate::descriptor::FunctionParameter;
use crate::header::{CParam, CType};
use crate::schema::spec_param_is_in;
use crate::schema_text::spec_contracts_renderable;
use crate::views::seq_view;
use vstd::prelude::*;

verus! {

/// The stub spelling of a supported native type: the unsigned scalar and
/// the 32-bit enum-backed elaborated types.
pub open spec fn spec_rust_type(ty: CType) -> Seq<char>
    recommends
        ty.spec_supported(),
{
    match ty {
        CType::UInt => "u32"@,
        CType::Elaborated { .. } => "i32"@,
        CType::Other { .. } => "i32"@,
    }
}

/// Renders the stub spelling of a supported native type; an unsupported
/// type never reaches emission.
pub fn c_type_to_rust(ty: &CType) -> (r: String)
    requires
        ty.spec_supported(),
    ensures
        r@ == spec_rust_type(*ty),
{
    match ty {
        CType::UInt => String::from_str("u32"),
        CType::Elaborated { .. } => String::from_str("i32"),
        CType::Other { .. } => unreached(),
    }
}

/// One rendered signature parameter, `name: type`.
pub open spec fn spec_sig_param(p: CParam) -> Seq<char> {
    p.name@ + ": "@ + spec_rust_type(p.ty)
}

/// The rendered continuation of a signature parameter list: a comma
/// before every further parameter.
pub open spec fn spec_sig_params_tail(params: Seq<CParam>) -> Seq<char>
    decreases params.len(),
{
    if params.len() == 0 {
        Seq::empty()
    } else {
        ", "@ + spec_sig_param(params[0]) + spec_sig_params_tail(params.skip(1))
    }
}

/// The rendered signature parameter list.
pub open spec fn spec_sig_params(params: Seq<CParam>) -> Seq<char> {
    if params.len() == 0 {
        Seq::empty()
    } else {
        spec_sig_param(params[0]) + spec_sig_params_tail(params.skip(1))
    }
}

/// Renders the signature parameter list of a stub entry point.
fn sig_params_text(params: &Vec<CParam>) -> (r: String)
    requires
        forall|i: int| 0 <= i < params@.len() ==> (#[trigger] params@[i]).ty.spec_supported(),
    ensures
        r@ == spec_sig_params(params@),
{
    let mut result = String::new();
    if params.len() == 0 {
        return result;
    }
    result.append(params[0].name.as_str());
    result.append(": ");
    let first_ty = c_type_to_rust(&params[0].ty);
    result.append(first_ty.as_str());
    proof {
        assert(result@ =~= spec_sig_param(params@[0]));
        assert(params@.skip(1).skip(0) =~= params@.skip(1));
    }
    let mut i: usize = 1;
    while i < params.len()
        invariant
            1 <= i <= params@.len(),
            forall|k: int| 0 <= k < params@.len() ==> (#[trigger] params@[k]).ty.spec_supported(),
            spec_sig_params(params@) == result@ + spec_sig_params_tail(params@.skip(i as int)),
        decreases params@.len() - i,
    {
        proof {
            assert(params@.skip(i as int)[0] == params@[i as int]);
            assert(params@.skip(i as int).skip(1) =~= params@.skip(i + 1));
        }
        let ghost result_pre = result@;
        result.append(", ");
        result.append(params[i].name.as_str());
        result.append(": ");
        let ty_text = c_type_to_rust(&params[i].ty);
        result.append(ty_text.as_str());
        proof {
            assert(result@ =~= result_pre + (", "@ + spec_sig_param(params@[i as int])));
        }
        i = i + 1;
    }
    proof {
        assert(params@.skip(i as int).len() == 0);
        assert(result@ + spec_sig_params_tail(params@.skip(i as int)) =~= result@);
    }
    result
}

/// The rendered continuation of a type list: a comma before every further
/// type.
pub open spec fn spec_type_list_tail(params: Seq<CParam>) -> Seq<char>
    decreases params.len(),
{
    if params.len() == 0 {
        Seq::empty()
    } else {
        ", "@ + spec_rust_type(params[0].ty) + spec_type_list_tail(params.skip(1))
    }
}

/// The rendered parameter type list of a native symbol's signature.
pub open spec fn spec_type_list(params: Seq<CParam>) -> Seq<char> {
    if params.len() == 0 {
        Seq::empty()
    } else {
        spec_rust_type(params[0].ty) + spec_type_list_tail(params.skip(1))
    }
}

/// Renders the parameter type list of a native symbol's signature.
fn type_list_text(params: &Vec<CParam>) -> (r: String)
    requires
        forall|i: int| 0 <= i < params@.len() ==> (#[trigger] params@[i]).ty.spec_supported(),
    ensures
        r@ == spec_type_list(params@),
{
    let mut result = String::new();
    if params.len() == 0 {
        return result;
    }
    let first_ty = c_type_to_rust(&params[0].ty);
    result.append(first_ty.as_str());
    proof {
        assert(result@ =~= spec_rust_type(params@[0].ty));
    }
    let mut i: usize = 1;
    while i < params.len()
        invariant
            1 <= i <= params@.len(),
            forall|k: int| 0 <= k < params@.len() ==> (#[trigger] params@[k]).ty.spec_supported(),
            spec_type_list(params@) == result@ + spec_type_list_tail(params@.skip(i as int)),
        decreases params@.len() - i,
    {
        proof {
            assert(params@.skip(i as int)[0] == params@[i as int]);
            assert(params@.skip(i as int).skip(1) =~= params@.skip(i + 1));
        }
        let ghost result_pre = result@;
        result.append(", ");
        let ty_text = c_type_to_rust(&params[i].ty);
        result.append(ty_text.as_str());
        proof {
            assert(result@ =~= result_pre + (", "@ + spec_rust_type(params@[i as int].ty)));
        }
        i = i + 1;
    }
    proof {
        assert(params@.skip(i as int).len() == 0);
        assert(result@ + spec_type_list_tail(params@.skip(i as int)) =~= result@);
    }
    result
}

/// The rendered continuation of a handler argument list.
pub open spec fn spec_arg_list_tail(params: Seq<CParam>) -> Seq<char>
    decreases params.len(),
{
    if params.len() == 0 {
        Seq::empty()
    } else {
        ", call."@ + params[0].name@ + spec_arg_list_tail(params.skip(1))
    }
}

/// The rendered argument list a handler passes to the native symbol, one
/// decoded field per declared parameter.
pub open spec fn spec_arg_list(params: Seq<CParam>) -> Seq<char> {
    if params.len() == 0 {
        Seq::empty()
    } else {
        "call."@ + params[0].name@ + spec_arg_list_tail(params.skip(1))
    }
}

/// Renders the argument list a handler passes to the native symbol.
fn arg_list_text(params: &Vec<CParam>) -> (r: String)
    ensures
        r@ == spec_arg_list(params@),
{
    let mut result = String::new();
    if params.len() == 0 {
        return result;
    }
    result.append("call.");
    result.append(params[0].name.as_str());
    proof {
        assert(result@ =~= "call."@ + params@[0].name@);
    }
    let mut i: usize = 1;
    while i < params.len()
        invariant
            1 <= i <= params@.len(),
            spec_arg_list(params@) == result@ + spec_arg_list_tail(params@.skip(i as int)),
        decreases params@.len() - i,
    {
        proof {
            assert(params@.skip(i as int)[0] == params@[i as int]);
            assert(params@.skip(i as int).skip(1) =~= params@.skip(i + 1));
        }
        let ghost result_pre = result@;
        result.append(", call.");
        result.append(params[i].name.as_str());
        proof {
            assert(result@ =~= result_pre + (", call."@ + params@[i as int].name@));
        }
        i = i + 1;
    }
    proof {
        assert(params@.skip(i as int).len() == 0);
        assert(result@ + spec_arg_list_tail(params@.skip(i as int)) =~= result@);
    }
    result
}

/// One rendered marshaling line per IN-direction parameter, in
/// declaration order; an OUT-direction parameter sends nothing.
pub open spec fn spec_in_slice_lines(
    described: Seq<FunctionParameter>,
    params: Seq<CParam>,
) -> Seq<char>
    decreases params.len(),
{
    if params.len() == 0 {
        Seq::empty()
    } else {
        let line = if spec_param_is_in(described, params[0]) {
            "    in_slices.push(IoSlice::new(as_u8_slice(&"@ + params[0].name@ + ")));\n"@
        } else {
            Seq::<char>::empty()
        };
        line + spec_in_slice_lines(described, params.skip(1))
    }
}

/// Renders the marshaling lines of a contract's IN-direction parameters,
/// walking the native declaration's order, not the description's.
fn in_slice_lines_text(fd: &FunctionDef) -> (r: String)
    requires
        spec_contract_wf(fd@),
    ensures
        r@ == spec_in_slice_lines(fd@.description.params, fd@.c_function.params),
{
    let ghost described = fd@.description.params;
    let ghost cparams = fd@.c_function.params;
    let mut result = String::new();
    let mut i: usize = 0;
    proof {
        assert(cparams.skip(0) =~= cparams);
    }
    while i < fd.c_function.params.len()
        invariant
            0 <= i <= cparams.len(),
            described == fd@.description.params,
            cparams == fd@.c_function.params,
            cparams.len() == fd.c_function.params@.len(),
            spec_contract_wf(fd@),
            spec_in_slice_lines(described, cparams) == result@ + spec_in_slice_lines(
                described,
                cparams.skip(i as int),
            ),
        decreases cparams.len() - i,
    {
        proof {
            assert(cparams.skip(i as int)[0] == cparams[i as int]);
            assert(cparams.skip(i as int).skip(1) =~= cparams.skip(i + 1));
        }
        let ghost result_pre = result@;
        let p = &fd.c_function.params[i];
        let described_param = fd.description.get_param(&p.name);
        if matches!(described_param.direction, crate::descriptor::ParameterDirection::IN) {
            result.append("    in_slices.push(IoSlice::new(as_u8_slice(&");
            result.append(p.name.as_str());
            result.append(")));\n");
            proof {
                assert(result@ =~= result_pre + ("    in_slices.push(IoSlice::new(as_u8_slice(&"@
                    + cparams[i as int].name@ + ")));\n"@));
            }
        }
        i = i + 1;
    }
    proof {
        assert(cparams.skip(i as int).len() == 0);
        assert(result@ + spec_in_slice_lines(described, cparams.skip(i as int)) =~= result@);
    }
    result
}

/// The fixed head of the client artifact: the module and import lines.
pub open spec fn spec_client_header() -> Seq<char> {
    "mod non_generated;\n"@ + "use std::io::{IoSlice, IoSliceMut};\n"@
        + "use byteorder::ReadBytesExt;\n"@ + "use cuda_over_ip_protocol::protocol;\n"@
        + "use cuda_over_ip_protocol::protocol::{func_result, func_call, FuncCall};\n"@
        + "use crate::non_generated::{as_u8_slice, u8_slice_as_value, send_call, read_result};\n"@
        + "\n"@
}

/// One rendered client entry point: a natively callable function that
/// marshals the call identifier — big-endian, converted before its raw
/// bytes go out — and the IN-direction parameters in declaration order,
/// sends them, and unmarshals the returned value.
pub open spec fn spec_client_fn_text(fd: FunctionDefV) -> Seq<char> {
    let camel_ret = upper_camel_of(fd.c_function.return_type.spec_display_name());
    "#[no_mangle]\n"@ + "pub unsafe extern \"C\" fn "@ + fd.description.name@ + "("@
        + spec_sig_params(fd.c_function.params) + ") -> protocol::"@ + camel_ret + " {\n"@
        + "    let mut write_guard = non_generated::WRITER_AND_READER.write();\n"@
        + "    let (buf_writer, buf_reader) = match write_guard.get_mut() {\n"@
        + "        Ok(r) => r,\n"@ + "        Err(_) => panic!(\"poisoned\"),\n"@ + "    };\n"@
        + "    let call_id_be: u32 = "@ + spec_dec_digits(fd.description.id as nat)
        + "_u32.to_be();\n"@ + "    let mut in_slices: Vec<IoSlice> = Vec::new();\n"@
        + "    in_slices.push(IoSlice::new(as_u8_slice(&call_id_be)));\n"@ + spec_in_slice_lines(
        fd.description.params,
        fd.c_function.params,
    ) + "    send_call(buf_writer, in_slices);\n"@
        + "    let mut out_slices: Vec<IoSliceMut> = Vec::new();\n"@
        + "    let mut result_vec = vec![0_u8; 4];\n"@
        + "    out_slices.push(IoSliceMut::new(result_vec.as_mut_slice()));\n"@
        + "    read_result(buf_reader, out_slices);\n"@
        + "    let result: i32 = u8_slice_as_value(&result_vec);\n"@ + "    protocol::"@
        + camel_ret + "::try_from(result).unwrap()\n"@ + "}\n"@
}

/// The rendered client entry points, in order, a blank line after each.
pub open spec fn spec_client_fns_text(fds: Seq<FunctionDefV>) -> Seq<char>
    decreases fds.len(),
{
    if fds.len() == 0 {
        Seq::empty()
    } else {
        spec_client_fn_text(fds[0]) + "\n"@ + spec_client_fns_text(fds.skip(1))
    }
}

/// The whole rendered client artifact.
pub open spec fn spec_client_text(fds: Seq<FunctionDefV>) -> Seq<char> {
    spec_client_header() + spec_client_fns_text(fds)
}

/// Renders one client entry point.
fn client_fn_text(fd: &FunctionDef) -> (r: String)
    requires
        spec_contracts_renderable(seq![fd@]),
    ensures
        r@ == spec_client_fn_text(fd@),
{
    proof {
        assert(seq![fd@][0] == fd@);
    }
    let mut result = String::new();
    result.append("#[no_mangle]\n");
    result.append("pub unsafe extern \"C\" fn ");
    result.append(fd.description.name.as_str());
    result.append("(");
    let params_text = sig_params_text(&fd.c_function.params);
    result.append(params_text.as_str());
    result.append(") -> protocol::");
    let ret_display = fd.c_function.return_type.display_name();
    let camel_ret = c_to_rust_name(ret_display.as_str());
    result.append(camel_ret.as_str());
    result.append(" {\n");
    result.append("    let mut write_guard = non_generated::WRITER_AND_READER.write();\n");
    result.append("    let (buf_writer, buf_reader) = match write_guard.get_mut() {\n");
    result.append("        Ok(r) => r,\n");
    result.append("        Err(_) => panic!(\"poisoned\"),\n");
    result.append("    };\n");
    result.append("    let call_id_be: u32 = ");
    let id_text = u64_to_dec(fd.description.id as u64);
    result.append(id_text.as_str());
    result.append("_u32.to_be();\n");
    result.append("    let mut in_slices: Vec<IoSlice> = Vec::new();\n");
    result.append("    in_slices.push(IoSlice::new(as_u8_slice(&call_id_be)));\n");
    let in_lines = in_slice_lines_text(fd);
    result.append(in_lines.as_str());
    result.append("    send_call(buf_writer, in_slices);\n");
    result.append("    let mut out_slices: Vec<IoSliceMut> = Vec::new();\n");
    result.append("    let mut result_vec = vec![0_u8; 4];\n");
    result.append("    out_slices.push(IoSliceMut::new(result_vec.as_mut_slice()));\n");
    result.append("    read_result(buf_reader, out_slices);\n");
    result.append("    let result: i32 = u8_slice_as_value(&result_vec);\n");
    result.append("    protocol::");
    result.append(camel_ret.as_str());
    result.append("::try_from(result).unwrap()\n");
    result.append("}\n");
    proof {
        assert(result@ =~= spec_client_fn_text(fd@));
    }
    result
}

/// Renders the whole client artifact: the fixed imports, then one
/// natively callable entry point per contract, in description order.
pub fn generate_client(functions: &Vec<FunctionDef>) -> (r: String)
    requires
        spec_contracts_renderable(seq_view(functions@)),
    ensures
        r@ == spec_client_text(seq_view(functions@)),
{
    let ghost fds_v = seq_view(functions@);
    let mut result = String::new();
    result.append("mod non_generated;\n");
    result.append("use std::io::{IoSlice, IoSliceMut};\n");
    result.append("use byteorder::ReadBytesExt;\n");
    result.append("use cuda_over_ip_protocol::protocol;\n");
    result.append("use cuda_over_ip_protocol::protocol::{func_result, func_call, FuncCall};\n");
    result.append(
        "use crate::non_generated::{as_u8_slice, u8_slice_as_value, send_call, read_result};\n",
    );
    result.append("\n");
    proof {
        assert(result@ =~= spec_client_header());
        assert(fds_v.skip(0) =~= fds_v);
    }
    let mut i: usize = 0;
    while i < functions.len()
        invariant
            0 <= i <= functions@.len(),
            fds_v == seq_view(functions@),
            fds_v.len() == functions@.len(),
            spec_contracts_renderable(fds_v),
            spec_client_header() + spec_client_fns_text(fds_v) == result@ + spec_client_fns_text(
                fds_v.skip(i as int),
            ),
        decreases functions@.len() - i,
    {
        proof {
            assert(fds_v.skip(i as int)[0] == fds_v[i as int]);
            assert(fds_v[i as int] == functions@[i as int]@);
            assert(fds_v.skip(i as int).skip(1) =~= fds_v.skip(i + 1));
            assert(seq![functions@[i as int]@][0] == fds_v[i as int]);
        }
        let ghost result_pre = result@;
        let fn_text = client_fn_text(&functions[i]);
        result.append(fn_text.as_str());
        result.append("\n");
        proof {
            assert(result@ =~= result_pre + (spec_client_fn_text(fds_v[i as int]) + "\n"@));
        }
        i = i + 1;
    }
    proof {
        assert(fds_v.skip(i as int).len() == 0);
        assert(result@ + spec_client_fns_text(fds_v.skip(i as int)) =~= result@);
        assert(result@ =~= spec_client_text(fds_v));
    }
    result
}

/// The fixed head of the server artifact: the import lines.
pub open spec fn spec_server_header() -> Seq<char> {
    "use libloading::Library;\n"@ + "use cuda_over_ip_protocol::protocol;\n"@
        + "use cuda_over_ip_protocol::protocol::{func_result, func_call, FuncCall, FuncResult};\n"@
        + "\n"@
}

/// One rendered dispatch arm of the server's entry function.
pub open spec fn spec_dispatch_arm_text(fd: FunctionDefV) -> Seq<char> {
    let camel = upper_camel_of(fd.description.name@);
    "        func_call::Type::"@ + camel + "FuncCall(c) => handle_"@ + camel + "(c, &libnvidia),\n"@
}

/// The rendered dispatch arms, in order.
pub open spec fn spec_dispatch_arms_text(fds: Seq<FunctionDefV>) -> Seq<char>
    decreases fds.len(),
{
    if fds.len() == 0 {
        Seq::empty()
    } else {
        spec_dispatch_arm_text(fds[0]) + spec_dispatch_arms_text(fds.skip(1))
    }
}

/// The rendered dispatch entry function: one arm per contract, and a
/// reported error, not a crash, for an envelope with no set variant.
pub open spec fn spec_handle_call_text(fds: Seq<FunctionDefV>) -> Seq<char> {
    "pub(crate) fn handle_call(call: FuncCall, libnvidia: &Library) -> Result<FuncResult, String> {\n"@
        + "    match call.r#type.ok_or(\"No type provided\")? {\n"@ + spec_dispatch_arms_text(fds)
        + "    }\n"@ + "}\n"@
}

/// Renders the dispatch entry function.
pub fn generate_high_level_handle_call_function(functions: &Vec<FunctionDef>) -> (r: String)
    ensures
        r@ == spec_handle_call_text(seq_view(functions@)),
{
    let ghost fds_v = seq_view(functions@);
    let mut result = String::new();
    result.append(
        "pub(crate) fn handle_call(call: FuncCall, libnvidia: &Library) -> Result<FuncResult, String> {\n",
    );
    result.append("    match call.r#type.ok_or(\"No type provided\")? {\n");
    let ghost head =
        "pub(crate) fn handle_call(call: FuncCall, libnvidia: &Library) -> Result<FuncResult, String> {\n"@
        + "    match call.r#type.ok_or(\"No type provided\")? {\n"@;
    proof {
        assert(result@ =~= head);
        assert(fds_v.skip(0) =~= fds_v);
    }
    let mut i: usize = 0;
    while i < functions.len()
        invariant
            0 <= i <= functions@.len(),
            fds_v == seq_view(functions@),
            fds_v.len() == functions@.len(),
            head + spec_dispatch_arms_text(fds_v) == result@ + spec_dispatch_arms_text(
                fds_v.skip(i as int),
            ),
        decreases functions@.len() - i,
    {
        proof {
            assert(fds_v.skip(i as int)[0] == fds_v[i as int]);
            assert(fds_v[i as int] == functions@[i as int]@);
            assert(fds_v.skip(i as int).skip(1) =~= fds_v.skip(i + 1));
        }
        let ghost result_pre = result@;
        let camel = c_to_rust_name(functions[i].description.name.as_str());
        result.append("        func_call::Type::");
        result.append(camel.as_str());
        result.append("FuncCall(c) => handle_");
        result.append(camel.as_str());
        result.append("(c, &libnvidia),\n");
        proof {
            assert(result@ =~= result_pre + spec_dispatch_arm_text(fds_v[i as int]));
        }
        i = i + 1;
    }
    result.append("    }\n");
    result.append("}\n");
    proof {
        assert(spec_dispatch_arms_text(fds_v.skip(i as int)) =~= Seq::<char>::empty());
        assert(result@ =~= spec_handle_call_text(fds_v));
    }
    result
}

/// One rendered handler: it resolves the native symbol under the
/// contract's exact signature, invokes it with the decoded fields, and
/// wraps the returned value in the matching result variant.
pub open spec fn spec_handler_text(fd: FunctionDefV) -> Seq<char> {
    let camel = upper_camel_of(fd.description.name@);
    "#[allow(non_snake_case)]\n"@ + "fn handle_"@ + camel + "(call: protocol::"@ + camel
        + "FuncCall, libnvidia: &Library) -> Result<FuncResult, String> {\n"@
        + "    let func: libloading::Symbol<unsafe extern fn("@ + spec_type_list(
        fd.c_function.params,
    ) + ") -> "@ + spec_rust_type(fd.c_function.return_type) + "> = unsafe {\n"@
        + "        libnvidia.get(b\""@ + fd.description.name@ + "\").unwrap()\n"@ + "    };\n"@
        + "    println!(\"{:?}\", func);\n"@ + "    let result = unsafe { func("@ + spec_arg_list(
        fd.c_function.params,
    ) + ") };\n"@ + "    Ok(FuncResult {\n"@ + "        r#type: Some(\n"@
        + "            func_result::Type::"@ + camel + "FuncResult(protocol::"@ + camel
        + "FuncResult {\n"@ + "                r#return: result,\n"@ + "            }),\n"@
        + "        ),\n"@ + "    })\n"@ + "}\n"@
}

/// Renders one handler.
pub fn generate_concrete_handle_call_function(fd: &FunctionDef) -> (r: String)
    requires
        spec_contracts_renderable(seq![fd@]),
    ensures
        r@ == spec_handler_text(fd@),
{
    proof {
        assert(seq![fd@][0] == fd@);
    }
    let camel = c_to_rust_name(fd.description.name.as_str());
    let mut result = String::new();
    result.append("#[allow(non_snake_case)]\n");
    result.append("fn handle_");
    result.append(camel.as_str());
    result.append("(call: protocol::");
    result.append(camel.as_str());
    result.append("FuncCall, libnvidia: &Library) -> Result<FuncResult, String> {\n");
    result.append("    let func: libloading::Symbol<unsafe extern fn(");
    let types_text = type_list_text(&fd.c_function.params);
    result.append(types_text.as_str());
    result.append(") -> ");
    let ret_text = c_type_to_rust(&fd.c_function.return_type);
    result.append(ret_text.as_str());
    result.append("> = unsafe {\n");
    result.append("        libnvidia.get(b\"");
    result.append(fd.description.name.as_str());
    result.append("\").unwrap()\n");
    result.append("    };\n");
    result.append("    println!(\"{:?}\", func);\n");
    result.append("    let result = unsafe { func(");
    let args_text = arg_list_text(&fd.c_function.params);
    result.append(args_text.as_str());
    result.append(") };\n");
    result.append("    Ok(FuncResult {\n");
    result.append("        r#type: Some(\n");
    result.append("            func_result::Type::");
    result.append(camel.as_str());
    result.append("FuncResult(protocol::");
    result.append(camel.as_str());
    result.append("FuncResult {\n");
    result.append("                r#return: result,\n");
    result.append("            }),\n");
    result.append("        ),\n");
    result.append("    })\n");
    result.append("}\n");
    proof {
        assert(result@ =~= spec_handler_text(fd@));
    }
    result
}

/// The rendered handlers, in order, a blank line before each.
pub open spec fn spec_handlers_text(fds: Seq<FunctionDefV>) -> Seq<char>
    decreases fds.len(),
{
    if fds.len() == 0 {
        Seq::empty()
    } else {
        "\n"@ + spec_handler_text(fds[0]) + spec_handlers_text(fds.skip(1))
    }
}

/// The whole rendered server artifact.
pub open spec fn spec_server_text(fds: Seq<FunctionDefV>) -> Seq<char> {
    spec_server_header() + spec_handle_call_text(fds) + spec_handlers_text(fds)
}

/// Renders the whole server artifact: the fixed imports, the dispatch
/// entry function, then one handler per contract, in description order.
pub fn generate_server(functions: &Vec<FunctionDef>) -> (r: String)
    requires
        spec_contracts_renderable(seq_view(functions@)),
    ensures
        r@ == spec_server_text(seq_view(functions@)),
{
    let ghost fds_v = seq_view(functions@);
    let mut result = String::new();
    result.append("use libloading::Library;\n");
    result.append("use cuda_over_ip_protocol::protocol;\n");
    result.append(
        "use cuda_over_ip_protocol::protocol::{func_result, func_call, FuncCall, FuncResult};\n",
    );
    result.append("\n");
    let dispatch_text = generate_high_level_handle_call_function(functions);
    result.append(dispatch_text.as_str());
    let ghost head = spec_server_header() + spec_handle_call_text(fds_v);
    proof {
        assert(result@ =~= head);
        assert(fds_v.skip(0) =~= fds_v);
    }
    let mut i: usize = 0;
    while i < functions.len()
        invariant
            0 <= i <= functions@.len(),
            fds_v == seq_view(functions@),
            fds_v.len() == functions@.len(),
            spec_contracts_renderable(fds_v),
            head + spec_handlers_text(fds_v) == result@ + spec_handlers_text(fds_v.skip(i as int)),
        decreases functions@.len() - i,
    {
        proof {
            assert(fds_v.skip(i as int)[0] == fds_v[i as int]);
            assert(fds_v[i as int] == functions@[i as int]@);
            assert(fds_v.skip(i as int).skip(1) =~= fds_v.skip(i + 1));
            assert(seq![functions@[i as int]@][0] == fds_v[i as int]);
        }
        let ghost result_pre = result@;
        result.append("\n");
        let handler_text = generate_concrete_handle_call_function(&functions[i]);
        result.append(handler_text.as_str());
        proof {
            assert(result@ =~= result_pre + ("\n"@ + spec_handler_text(fds_v[i as int])));
        }
        i = i + 1;
    }
    proof {
        assert(fds_v.skip(i as int).len() == 0);
        assert(result@ + spec_handlers_text(fds_v.skip(i as int)) =~= result@);
        assert(result@ =~= spec_server_text(fds_v));
    }
    result
}

} // verus!
