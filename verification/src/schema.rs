//! The wire schema derived from a contract set, in structural form.
//!
//! For every contract the schema holds one `Call` message carrying exactly
//! the contract's IN-direction parameters, numbered by their position in
//! the native declaration (1-based, counting every parameter) so that a
//! parameter's field number never moves; and one `Result` message carrying
//! the return value alone, under a reserved field name with number 1.

use crate::contract::{spec_contract_wf, FunctionDef, FunctionDefV};
use crate::descriptor::{spec_find_param, FunctionParameter, ParameterDirection};
use crate::header::{CParam, CType};
use crate::views::seq_view;
use vstd::prelude::*;

verus! {

/// The mathematical shape of one schema message field.
pub ghost struct MessageFieldV {
    pub name: Seq<char>,
    pub ty: CType,
    pub number: u32,
}

/// One field of a schema message.
#[derive(Debug)]
pub struct MessageField {
    pub name: String,
    pub ty: CType,
    pub number: u32,
}

impl View for MessageField {
    type V = MessageFieldV;

    open spec fn view(&self) -> MessageFieldV {
        MessageFieldV { name: self.name@, ty: self.ty, number: self.number }
    }
}

impl Clone for MessageField {
    fn clone(&self) -> (r: Self)
        ensures
            r == *self,
    {
        MessageField { name: self.name.clone(), ty: self.ty.clone(), number: self.number }
    }
}

/// The mathematical shape of one schema message.
pub ghost struct MessageDefV {
    pub name: Seq<char>,
    pub fields: Seq<MessageFieldV>,
}

/// One schema message: a name and its numbered fields.
#[derive(Debug)]
pub struct MessageDef {
    pub name: String,
    pub fields: Vec<MessageField>,
}

impl View for MessageDef {
    type V = MessageDefV;

    open spec fn view(&self) -> MessageDefV {
        MessageDefV { name: self.name@, fields: seq_view(self.fields@) }
    }
}

/// Whether the described direction of the native parameter `p` is IN,
/// read from the first described parameter of its name.
pub open spec fn spec_param_is_in(described: Seq<FunctionParameter>, p: CParam) -> bool {
    spec_find_param(described, p.name@) matches Some(fp) && fp.direction is IN
}

/// The call-message fields of the native parameters `params`, whose first
/// element sits at 0-based position `base` of the declaration: exactly the
/// IN-direction parameters, each numbered `position + 1`.
pub open spec fn spec_call_fields(
    described: Seq<FunctionParameter>,
    params: Seq<CParam>,
    base: nat,
) -> Seq<MessageFieldV>
    recommends
        base + params.len() <= u32::MAX,
    decreases params.len(),
{
    if params.len() == 0 {
        Seq::empty()
    } else {
        let rest = spec_call_fields(described, params.skip(1), base + 1);
        if spec_param_is_in(described, params[0]) {
            seq![
                MessageFieldV {
                    name: params[0].name@,
                    ty: params[0].ty,
                    number: (base + 1) as u32,
                },
            ] + rest
        } else {
            rest
        }
    }
}

/// Every call field names an IN-direction parameter of the declaration,
/// under that parameter's type and 1-based position; and every
/// IN-direction parameter has exactly its own field. OUT-direction
/// parameters have none.
pub proof fn lemma_call_fields_directionality(
    described: Seq<FunctionParameter>,
    params: Seq<CParam>,
    base: nat,
)
    requires
        base + params.len() <= u32::MAX,
    ensures
        forall|k: int|
            0 <= k < spec_call_fields(described, params, base).len() ==> exists|i: int|
                0 <= i < params.len() && (#[trigger] spec_call_fields(described, params, base)[k])
                    == (MessageFieldV {
                    name: params[i].name@,
                    ty: params[i].ty,
                    number: (base + i + 1) as u32,
                }) && spec_param_is_in(described, params[i]),
        forall|i: int|
            0 <= i < params.len() && spec_param_is_in(described, #[trigger] params[i])
                ==> spec_call_fields(described, params, base).contains(
                MessageFieldV {
                    name: params[i].name@,
                    ty: params[i].ty,
                    number: (base + i + 1) as u32,
                },
            ),
    decreases params.len(),
{
    if params.len() > 0 {
        lemma_call_fields_directionality(described, params.skip(1), base + 1);
        let fields = spec_call_fields(described, params, base);
        let rest = spec_call_fields(described, params.skip(1), (base + 1) as nat);
        assert(forall|i: int| 0 <= i < params.skip(1).len() ==> params.skip(1)[i] == params[i + 1]);
        assert forall|k: int| 0 <= k < fields.len() implies exists|i: int|
            0 <= i < params.len() && (#[trigger] fields[k]) == (MessageFieldV {
                name: params[i].name@,
                ty: params[i].ty,
                number: (base + i + 1) as u32,
            }) && spec_param_is_in(described, params[i]) by {
            let offset: int = if spec_param_is_in(described, params[0]) {
                1
            } else {
                0
            };
            if k < offset {
                assert(fields[k] == MessageFieldV {
                    name: params[0].name@,
                    ty: params[0].ty,
                    number: (base + 1) as u32,
                });
            } else {
                assert(fields[k] == rest[k - offset]);
                let i = choose|i: int|
                    0 <= i < params.skip(1).len() && rest[k - offset] == (MessageFieldV {
                        name: params.skip(1)[i].name@,
                        ty: params.skip(1)[i].ty,
                        number: (base + 1 + i + 1) as u32,
                    }) && spec_param_is_in(described, params.skip(1)[i]);
                assert(params.skip(1)[i] == params[i + 1]);
            }
        }
        assert forall|i: int|
            0 <= i < params.len() && spec_param_is_in(described, #[trigger] params[i]) implies
        spec_call_fields(described, params, base).contains(
            MessageFieldV {
                name: params[i].name@,
                ty: params[i].ty,
                number: (base + i + 1) as u32,
            },
        ) by {
            let offset: int = if spec_param_is_in(described, params[0]) {
                1
            } else {
                0
            };
            if i == 0 {
                assert(fields[0] == MessageFieldV {
                    name: params[0].name@,
                    ty: params[0].ty,
                    number: (base + 1) as u32,
                });
            } else {
                assert(params.skip(1)[i - 1] == params[i]);
                let f = MessageFieldV {
                    name: params[i].name@,
                    ty: params[i].ty,
                    number: (base + i + 1) as u32,
                };
                assert(rest.contains(f));
                let k = choose|k: int| 0 <= k < rest.len() && rest[k] == f;
                assert(fields[k + offset] == f);
            }
        }
    }
}

/// The call message of one contract.
pub open spec fn spec_call_message(fd: FunctionDefV) -> MessageDefV
    recommends
        fd.c_function.params.len() <= u32::MAX,
{
    MessageDefV {
        name: fd.description.name@,
        fields: spec_call_fields(fd.description.params, fd.c_function.params, 0),
    }
}

/// Builds the call message of one contract: one field per IN-direction
/// parameter, numbered by declaration position, and no other field.
pub fn call_message(fd: &FunctionDef) -> (r: MessageDef)
    requires
        spec_contract_wf(fd@),
        fd.c_function.params@.len() <= u32::MAX,
    ensures
        r@ == spec_call_message(fd@),
        forall|k: int| 0 <= k < r@.fields.len() ==> (#[trigger] r@.fields[k]).ty.spec_supported(),
{
    let ghost described = fd@.description.params;
    let ghost cparams = fd@.c_function.params;
    let mut fields: Vec<MessageField> = Vec::new();
    let mut i: usize = 0;
    proof {
        assert(cparams.skip(0) =~= cparams);
    }
    while i < fd.c_function.params.len()
        invariant
            0 <= i <= cparams.len(),
            described == fd@.description.params,
            cparams == fd@.c_function.params,
            cparams.len() <= u32::MAX,
            spec_contract_wf(fd@),
            cparams.len() == fd.c_function.params@.len(),
            spec_call_fields(described, cparams, 0) == seq_view(fields@) + spec_call_fields(
                described,
                cparams.skip(i as int),
                i as nat,
            ),
            forall|k: int|
                0 <= k < fields@.len() ==> (#[trigger] seq_view(fields@)[k]).ty.spec_supported(),
        decreases cparams.len() - i,
    {
        proof {
            assert(cparams.skip(i as int)[0] == cparams[i as int]);
            assert(cparams.skip(i as int).skip(1) =~= cparams.skip(i + 1));
        }
        let p = &fd.c_function.params[i];
        let described_param = fd.description.get_param(&p.name);
        if matches!(described_param.direction, ParameterDirection::IN) {
            let ghost fields_pre = fields@;
            let field = MessageField { name: p.name.clone(), ty: p.ty.clone(), number: (i as u32)
                + 1 };
            fields.push(field);
            proof {
                assert(seq_view(fields@) =~= seq_view(fields_pre) + seq![field@]);
            }
        }
        i = i + 1;
    }
    proof {
        assert(cparams.skip(i as int).len() == 0);
        assert(seq_view(fields@) + spec_call_fields(described, cparams.skip(i as int), i as nat)
            =~= seq_view(fields@));
    }
    MessageDef { name: fd.description.name.clone(), fields }
}

/// The single field of every result message: the return value, under the
/// reserved name, with field number 1. The reserved name cannot collide
/// with a parameter name: validation rejects a parameter so named.
pub open spec fn spec_result_field(fd: FunctionDefV) -> MessageFieldV {
    MessageFieldV { name: "return"@, ty: fd.c_function.return_type, number: 1 }
}

/// The result message of one contract.
pub open spec fn spec_result_message(fd: FunctionDefV) -> MessageDefV {
    MessageDefV { name: fd.description.name@, fields: seq![spec_result_field(fd)] }
}

/// Builds the result message of one contract: the reserved return field
/// and nothing else — in particular none of the IN-direction parameters.
pub fn result_message(fd: &FunctionDef) -> (r: MessageDef)
    ensures
        r@ == spec_result_message(fd@),
{
    let mut fields: Vec<MessageField> = Vec::new();
    fields.push(
        MessageField {
            name: String::from_str("return"),
            ty: fd.c_function.return_type.clone(),
            number: 1,
        },
    );
    proof {
        assert(seq_view(fields@) =~= seq![spec_result_field(fd@)]);
    }
    MessageDef { name: fd.description.name.clone(), fields }
}

} // verus!
