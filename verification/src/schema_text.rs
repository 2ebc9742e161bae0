//! The textual schema artifact: the message definitions rendered as a
//! proto3 source file.
//!
//! Rendering is a pure function of the validated contract set and the
//! extracted enum definitions: the same set always yields the same text,
//! character for character. Contracts are rendered in description order,
//! so union case tags never depend on an iteration order.

use crate::contract::{spec_contract_wf, FunctionDef, FunctionDefV};
use crate::decimal::{i64_to_dec, spec_dec_digits, spec_dec_int, u64_to_dec};
use crate::header::{CType, EnumDef, EnumDefV, EnumElement};
use crate::schema::{
    call_message, result_message, spec_call_message, spec_result_message, MessageDef, MessageDefV,
    MessageFieldV,
};
use crate::views::seq_view;
use vstd::prelude::*;

verus! {

/// The fixed head of the schema file.
pub open spec fn spec_protobuf_header() -> Seq<char> {
    "syntax = \"proto3\";\n"@ + "\n"@ + "package protocol;\n"@ + "\n"@
}

/// Renders the fixed head of the schema file.
pub fn generate_protobuf_header() -> (r: String)
    ensures
        r@ == spec_protobuf_header(),
{
    let mut result = String::new();
    result.append("syntax = \"proto3\";\n");
    result.append("\n");
    result.append("package protocol;\n");
    result.append("\n");
    proof {
        assert(result@ =~= spec_protobuf_header());
    }
    result
}

/// The schema spelling of a supported native type: the unsigned scalar
/// maps to the unsigned 32-bit wire field, an elaborated type keeps its
/// name.
pub open spec fn spec_proto_type(ty: CType) -> Seq<char>
    recommends
        ty.spec_supported(),
{
    match ty {
        CType::UInt => "uint32"@,
        CType::Elaborated { name } => name@,
        CType::Other { name } => name@,
    }
}

/// Renders the schema spelling of a supported native type; an unsupported
/// type never reaches emission.
pub fn c_to_protobuf_type(ty: &CType) -> (r: String)
    requires
        ty.spec_supported(),
    ensures
        r@ == spec_proto_type(*ty),
{
    match ty {
        CType::UInt => String::from_str("uint32"),
        CType::Elaborated { name } => name.clone(),
        CType::Other { .. } => unreached(),
    }
}

/// One rendered enum element line.
pub open spec fn spec_enum_element_line(e: EnumElement) -> Seq<char> {
    match e.explicit_value {
        Option::None => "  "@ + e.name@ + ";\n"@,
        Option::Some(v) => "  "@ + e.name@ + " = "@ + spec_dec_int(v as int) + ";\n"@,
    }
}

/// The rendered element lines of one enum.
pub open spec fn spec_enum_elements_text(elements: Seq<EnumElement>) -> Seq<char>
    decreases elements.len(),
{
    if elements.len() == 0 {
        Seq::empty()
    } else {
        spec_enum_element_line(elements[0]) + spec_enum_elements_text(elements.skip(1))
    }
}

/// One rendered enum definition.
pub open spec fn spec_enum_text(e: EnumDefV) -> Seq<char> {
    "enum "@ + e.name@ + " {\n"@ + spec_enum_elements_text(e.elements) + "}\n"@
}

/// The rendered enum definitions, in order.
pub open spec fn spec_enums_text(enums: Seq<EnumDefV>) -> Seq<char>
    decreases enums.len(),
{
    if enums.len() == 0 {
        Seq::empty()
    } else {
        spec_enum_text(enums[0]) + spec_enums_text(enums.skip(1))
    }
}

/// Renders the extracted enum definitions, in order.
pub fn generate_protobuf_enums(enums: &Vec<EnumDef>) -> (r: String)
    ensures
        r@ == spec_enums_text(seq_view(enums@)),
{
    let ghost enums_v = seq_view(enums@);
    let mut result = String::new();
    let mut i: usize = 0;
    proof {
        assert(enums_v.skip(0) =~= enums_v);
    }
    while i < enums.len()
        invariant
            0 <= i <= enums@.len(),
            enums_v == seq_view(enums@),
            enums_v.len() == enums@.len(),
            spec_enums_text(enums_v) == result@ + spec_enums_text(enums_v.skip(i as int)),
        decreases enums@.len() - i,
    {
        proof {
            assert(enums_v.skip(i as int)[0] == enums_v[i as int]);
            assert(enums_v[i as int] == enums@[i as int]@);
            assert(enums_v.skip(i as int).skip(1) =~= enums_v.skip(i + 1));
        }
        let ghost result_pre = result@;
        let e = &enums[i];
        result.append("enum ");
        result.append(e.name.as_str());
        result.append(" {\n");
        let mut j: usize = 0;
        proof {
            assert(e.elements@.skip(0) =~= e.elements@);
            assert(result@ =~= result_pre + ("enum "@ + e.name@ + " {\n"@)
                + spec_enum_elements_text(e.elements@.skip(0)).take(0));
        }
        while j < e.elements.len()
            invariant
                0 <= j <= e.elements@.len(),
                result@ == result_pre + ("enum "@ + e.name@ + " {\n"@) + spec_enum_elements_text(
                    e.elements@.take(j as int),
                ),
            decreases e.elements@.len() - j,
        {
            let ghost line_pre = result@;
            let element = &e.elements[j];
            result.append("  ");
            result.append(element.name.as_str());
            match &element.explicit_value {
                None => {
                    result.append(";\n");
                    proof {
                        assert(result@ =~= line_pre + spec_enum_element_line(
                            e.elements@[j as int],
                        ));
                    }
                },
                Some(v) => {
                    result.append(" = ");
                    let value_text = i64_to_dec(*v);
                    result.append(value_text.as_str());
                    result.append(";\n");
                    proof {
                        assert(result@ =~= line_pre + spec_enum_element_line(
                            e.elements@[j as int],
                        ));
                    }
                },
            }
            proof {
                lemma_enum_elements_text_take(e.elements@, j as int);
                assert(result@ =~= result_pre + ("enum "@ + e.name@ + " {\n"@)
                    + spec_enum_elements_text(e.elements@.take(j + 1)));
            }
            j = j + 1;
        }
        result.append("}\n");
        proof {
            assert(e.elements@.take(j as int) =~= e.elements@);
            assert(result@ =~= result_pre + spec_enum_text(enums_v[i as int]));
        }
        i = i + 1;
    }
    proof {
        assert(enums_v.skip(i as int).len() == 0);
        assert(result@ + spec_enums_text(enums_v.skip(i as int)) =~= result@);
    }
    result
}

/// Appending one element extends the rendered element lines by one line.
proof fn lemma_enum_elements_text_take(elements: Seq<EnumElement>, j: int)
    requires
        0 <= j < elements.len(),
    ensures
        spec_enum_elements_text(elements.take(j + 1)) == spec_enum_elements_text(elements.take(j))
            + spec_enum_element_line(elements[j]),
    decreases j,
{
    if j == 0 {
        assert(elements.take(1) =~= seq![elements[0]]);
        assert(elements.take(0) =~= Seq::<EnumElement>::empty());
        assert(seq![elements[0]].skip(1) =~= Seq::<EnumElement>::empty());
        assert(spec_enum_elements_text(Seq::<EnumElement>::empty()) =~= Seq::<char>::empty());
        assert(spec_enum_elements_text(elements.take(1)) =~= spec_enum_element_line(elements[0]));
    } else {
        lemma_enum_elements_text_take(elements.skip(1), j - 1);
        assert(elements.take(j + 1)[0] == elements[0]);
        assert(elements.take(j + 1).skip(1) =~= elements.skip(1).take(j));
        assert(elements.take(j)[0] == elements[0]);
        assert(elements.take(j).skip(1) =~= elements.skip(1).take(j - 1));
        assert(elements.skip(1)[j - 1] == elements[j]);
        assert(spec_enum_elements_text(elements.take(j + 1)) =~= spec_enum_elements_text(
            elements.take(j),
        ) + spec_enum_element_line(elements[j]));
    }
}

/// One rendered message field line.
pub open spec fn spec_field_line(f: MessageFieldV) -> Seq<char> {
    "  "@ + spec_proto_type(f.ty) + " "@ + f.name + " = "@ + spec_dec_digits(f.number as nat)
        + ";\n"@
}

/// The rendered field lines of one message.
pub open spec fn spec_fields_text(fields: Seq<MessageFieldV>) -> Seq<char>
    decreases fields.len(),
{
    if fields.len() == 0 {
        Seq::empty()
    } else {
        spec_field_line(fields[0]) + spec_fields_text(fields.skip(1))
    }
}

/// One rendered message definition, under its name with `suffix` behind
/// it.
pub open spec fn spec_message_text(m: MessageDefV, suffix: Seq<char>) -> Seq<char> {
    "message "@ + m.name + suffix + " {\n"@ + spec_fields_text(m.fields) + "}\n"@
}

/// Appending one field extends the rendered field lines by one line.
proof fn lemma_fields_text_take(fields: Seq<MessageFieldV>, j: int)
    requires
        0 <= j < fields.len(),
    ensures
        spec_fields_text(fields.take(j + 1)) == spec_fields_text(fields.take(j)) + spec_field_line(
            fields[j],
        ),
    decreases j,
{
    if j == 0 {
        assert(fields.take(1) =~= seq![fields[0]]);
        assert(fields.take(0) =~= Seq::<MessageFieldV>::empty());
        assert(seq![fields[0]].skip(1) =~= Seq::<MessageFieldV>::empty());
        assert(spec_fields_text(Seq::<MessageFieldV>::empty()) =~= Seq::<char>::empty());
        assert(spec_fields_text(fields.take(1)) =~= spec_field_line(fields[0]));
    } else {
        lemma_fields_text_take(fields.skip(1), j - 1);
        assert(fields.take(j + 1)[0] == fields[0]);
        assert(fields.take(j + 1).skip(1) =~= fields.skip(1).take(j));
        assert(fields.take(j)[0] == fields[0]);
        assert(fields.take(j).skip(1) =~= fields.skip(1).take(j - 1));
        assert(fields.skip(1)[j - 1] == fields[j]);
        assert(spec_fields_text(fields.take(j + 1)) =~= spec_fields_text(fields.take(j))
            + spec_field_line(fields[j]));
    }
}

/// Renders one message definition, under its name with `suffix` behind it.
fn message_text(m: &MessageDef, suffix: &str) -> (r: String)
    requires
        forall|k: int| 0 <= k < m@.fields.len() ==> (#[trigger] m@.fields[k]).ty.spec_supported(),
    ensures
        r@ == spec_message_text(m@, suffix@),
{
    let mut result = String::new();
    result.append("message ");
    result.append(m.name.as_str());
    result.append(suffix);
    result.append(" {\n");
    let ghost head = "message "@ + m@.name + suffix@ + " {\n"@;
    proof {
        assert(result@ =~= head);
        assert(m@.fields.take(0) =~= Seq::<MessageFieldV>::empty());
    }
    let mut j: usize = 0;
    while j < m.fields.len()
        invariant
            0 <= j <= m.fields@.len(),
            m@.fields.len() == m.fields@.len(),
            forall|k: int|
                0 <= k < m@.fields.len() ==> (#[trigger] m@.fields[k]).ty.spec_supported(),
            result@ == head + spec_fields_text(m@.fields.take(j as int)),
        decreases m.fields@.len() - j,
    {
        proof {
            assert(m@.fields[j as int] == m.fields@[j as int]@);
        }
        let ghost line_pre = result@;
        let f = &m.fields[j];
        result.append("  ");
        let type_text = c_to_protobuf_type(&f.ty);
        result.append(type_text.as_str());
        result.append(" ");
        result.append(f.name.as_str());
        result.append(" = ");
        let number_text = u64_to_dec(f.number as u64);
        result.append(number_text.as_str());
        result.append(";\n");
        proof {
            assert(result@ =~= line_pre + spec_field_line(m@.fields[j as int]));
            lemma_fields_text_take(m@.fields, j as int);
            assert(result@ =~= head + spec_fields_text(m@.fields.take(j + 1)));
        }
        j = j + 1;
    }
    result.append("}\n");
    proof {
        assert(m@.fields.take(j as int) =~= m@.fields);
        assert(result@ =~= spec_message_text(m@, suffix@));
    }
    result
}

/// The rendered call and result messages of one contract.
pub open spec fn spec_function_pair_text(fd: FunctionDefV) -> Seq<char> {
    spec_message_text(spec_call_message(fd), "FuncCall"@) + "\n"@ + spec_message_text(
        spec_result_message(fd),
        "FuncResult"@,
    )
}

/// The rendered call and result messages of the contract set, in order.
pub open spec fn spec_function_pairs_text(fds: Seq<FunctionDefV>) -> Seq<char>
    decreases fds.len(),
{
    if fds.len() == 0 {
        Seq::empty()
    } else {
        spec_function_pair_text(fds[0]) + spec_function_pairs_text(fds.skip(1))
    }
}

/// The rendered case lines of one discriminated union, tagged by position.
pub open spec fn spec_union_cases(fds: Seq<FunctionDefV>, suffix: Seq<char>, base: nat) -> Seq<
    char,
>
    decreases fds.len(),
{
    if fds.len() == 0 {
        Seq::empty()
    } else {
        let name = fds[0].description.name@;
        ("    "@ + name + suffix + " "@ + name + suffix + " = "@ + spec_dec_digits(base + 1)
            + ";\n"@) + spec_union_cases(fds.skip(1), suffix, base + 1)
    }
}

/// One rendered discriminated union: one case per contract, in order.
pub open spec fn spec_union_text(fds: Seq<FunctionDefV>, suffix: Seq<char>) -> Seq<char> {
    "message "@ + suffix + " {\n"@ + "  oneof type {\n"@ + spec_union_cases(fds, suffix, 0)
        + "  }\n"@ + "}\n"@
}

/// Renders one discriminated union over the contract set.
fn union_text(fds: &Vec<FunctionDef>, suffix: &str) -> (r: String)
    ensures
        r@ == spec_union_text(seq_view(fds@), suffix@),
{
    let ghost fds_v = seq_view(fds@);
    let mut result = String::new();
    result.append("message ");
    result.append(suffix);
    result.append(" {\n");
    result.append("  oneof type {\n");
    let ghost head = "message "@ + suffix@ + " {\n"@ + "  oneof type {\n"@;
    proof {
        assert(result@ =~= head);
        assert(fds_v.skip(0) =~= fds_v);
    }
    let mut i: usize = 0;
    while i < fds.len()
        invariant
            0 <= i <= fds@.len(),
            fds_v == seq_view(fds@),
            fds_v.len() == fds@.len(),
            spec_union_cases(fds_v, suffix@, 0) == result@.skip(head.len() as int)
                + spec_union_cases(fds_v.skip(i as int), suffix@, i as nat),
            result@.take(head.len() as int) == head,
            result@.len() >= head.len(),
        decreases fds@.len() - i,
    {
        proof {
            assert(fds_v.skip(i as int)[0] == fds_v[i as int]);
            assert(fds_v[i as int] == fds@[i as int]@);
            assert(fds_v.skip(i as int).skip(1) =~= fds_v.skip(i + 1));
        }
        let ghost result_pre = result@;
        let name = &fds[i].description.name;
        result.append("    ");
        result.append(name.as_str());
        result.append(suffix);
        result.append(" ");
        result.append(name.as_str());
        result.append(suffix);
        result.append(" = ");
        let tag_text = u64_to_dec((i as u64) + 1);
        result.append(tag_text.as_str());
        result.append(";\n");
        proof {
            let line = "    "@ + name@ + suffix@ + " "@ + name@ + suffix@ + " = "@
                + spec_dec_digits((i + 1) as nat) + ";\n"@;
            assert(result@ =~= result_pre + line);
            assert(result@.take(head.len() as int) =~= head);
            assert(result@.skip(head.len() as int) =~= result_pre.skip(head.len() as int) + line);
        }
        i = i + 1;
    }
    proof {
        assert(fds_v.skip(i as int).len() == 0);
        assert(spec_union_cases(fds_v.skip(i as int), suffix@, i as nat) =~= Seq::<char>::empty());
        assert(result@.skip(head.len() as int) =~= spec_union_cases(fds_v, suffix@, 0));
        assert(result@ =~= result@.take(head.len() as int) + result@.skip(head.len() as int));
        assert(result@ =~= head + spec_union_cases(fds_v, suffix@, 0));
    }
    result.append("  }\n");
    result.append("}\n");
    proof {
        assert(result@ =~= spec_union_text(fds_v, suffix@));
    }
    result
}

/// The whole rendered message section: every contract's call and result
/// message, then the two unions.
pub open spec fn spec_protobuf_functions_text(fds: Seq<FunctionDefV>) -> Seq<char> {
    spec_function_pairs_text(fds) + "\n"@ + spec_union_text(fds, "FuncCall"@) + "\n"@
        + spec_union_text(fds, "FuncResult"@)
}

/// Whether every contract in the set can be rendered: it is well formed
/// and its parameter count leaves room for 1-based field numbers.
pub open spec fn spec_contracts_renderable(fds: Seq<FunctionDefV>) -> bool {
    forall|i: int|
        0 <= i < fds.len() ==> {
            &&& spec_contract_wf(#[trigger] fds[i])
            &&& fds[i].c_function.params.len() <= u32::MAX
        }
}

/// Renders every contract's call and result messages and the two
/// discriminated unions, in description order.
pub fn generate_protobuf_functions(functions: &Vec<FunctionDef>) -> (r: String)
    requires
        spec_contracts_renderable(seq_view(functions@)),
    ensures
        r@ == spec_protobuf_functions_text(seq_view(functions@)),
{
    let ghost fds_v = seq_view(functions@);
    let mut result = String::new();
    let mut i: usize = 0;
    proof {
        assert(fds_v.skip(0) =~= fds_v);
    }
    while i < functions.len()
        invariant
            0 <= i <= functions@.len(),
            fds_v == seq_view(functions@),
            fds_v.len() == functions@.len(),
            spec_contracts_renderable(fds_v),
            spec_function_pairs_text(fds_v) == result@ + spec_function_pairs_text(
                fds_v.skip(i as int),
            ),
        decreases functions@.len() - i,
    {
        proof {
            assert(fds_v.skip(i as int)[0] == fds_v[i as int]);
            assert(fds_v[i as int] == functions@[i as int]@);
            assert(fds_v.skip(i as int).skip(1) =~= fds_v.skip(i + 1));
        }
        let ghost result_pre = result@;
        let fd = &functions[i];
        let call_def = call_message(fd);
        let call_text = message_text(&call_def, "FuncCall");
        result.append(call_text.as_str());
        result.append("\n");
        let result_def = result_message(fd);
        proof {
            assert(forall|k: int|
                0 <= k < result_def@.fields.len() ==> (#[trigger] result_def@.fields[k]).ty
                    == fds_v[i as int].c_function.return_type);
        }
        let result_text = message_text(&result_def, "FuncResult");
        result.append(result_text.as_str());
        proof {
            assert(result@ =~= result_pre + spec_function_pair_text(fds_v[i as int]));
        }
        i = i + 1;
    }
    proof {
        assert(fds_v.skip(i as int).len() == 0);
        assert(result@ + spec_function_pairs_text(fds_v.skip(i as int)) =~= result@);
    }
    result.append("\n");
    let calls_union = union_text(functions, "FuncCall");
    result.append(calls_union.as_str());
    result.append("\n");
    let results_union = union_text(functions, "FuncResult");
    result.append(results_union.as_str());
    proof {
        assert(result@ =~= spec_protobuf_functions_text(fds_v));
    }
    result
}

/// The whole rendered schema file.
pub open spec fn spec_protobuf_text(enums: Seq<EnumDefV>, fds: Seq<FunctionDefV>) -> Seq<char> {
    spec_protobuf_header() + spec_enums_text(enums) + spec_protobuf_functions_text(fds)
}

/// Renders the whole schema file: header, enum definitions, then message
/// definitions. Writing it out is the caller's business.
pub fn generate_protobuf(enums: &Vec<EnumDef>, functions: &Vec<FunctionDef>) -> (r: String)
    requires
        spec_contracts_renderable(seq_view(functions@)),
    ensures
        r@ == spec_protobuf_text(seq_view(enums@), seq_view(functions@)),
{
    let mut result = generate_protobuf_header();
    let enums_text = generate_protobuf_enums(enums);
    result.append(enums_text.as_str());
    let functions_text = generate_protobuf_functions(functions);
    result.append(functions_text.as_str());
    proof {
        assert(result@ =~= spec_protobuf_text(seq_view(enums@), seq_view(functions@)));
    }
    result
}

} // verus!

