//! The validated join of a function description and its native signature.
//!
//! A contract set is built once per generation run. Building fails, and
//! nothing is emitted, when two descriptions share an identifier, when a
//! described function has no native signature, when a signature reaches an
//! unsupported type, when described and declared parameters do not
//! correspond one to one by name, or when two function names collide after
//! the case transform.

use crate::casing::{c_to_rust_name, upper_camel_of};
use crate::descriptor::{
    has_param, param_names, spec_has_param, spec_ids_unique, check_id_uniqueness,
    FunctionDescription, FunctionDescriptionV,
};
use crate::header::{
    c_param_names, has_c_param, spec_has_c_param, CFunction, CFunctionV, CType, NamedCFunction,
    NamedCFunctionV,
};
use crate::names::{
    lemma_name_in_push, lemma_names_distinct_push, name_in, names_distinct, spec_name_in,
    spec_names_distinct,
};
use crate::views::seq_view;
use vstd::prelude::*;

verus! {

/// Why a generation run was rejected. A `NameCollision` is either two
/// function names that read the same after the case transform, or a
/// parameter that takes the reserved return-field name.
#[derive(PartialEq, Eq, Structural, Clone, Copy, Debug)]
pub enum GenError {
    DuplicateId,
    MissingSignature,
    UnsupportedType,
    ParamMismatch,
    NameCollision,
}

/// The mathematical shape of one validated contract.
pub ghost struct FunctionDefV {
    pub description: FunctionDescriptionV,
    pub c_function: CFunctionV,
}

/// One proxied function: its hand-authored description joined with the
/// native signature declared under the same name.
#[derive(Debug)]
pub struct FunctionDef {
    pub description: FunctionDescription,
    pub c_function: CFunction,
}

impl View for FunctionDef {
    type V = FunctionDefV;

    open spec fn view(&self) -> FunctionDefV {
        FunctionDefV { description: self.description@, c_function: self.c_function@ }
    }
}

/// The display names of the types that need an extracted definition for
/// this contract: the return type's, and every elaborated parameter
/// type's.
pub open spec fn spec_required_tnames(c: CFunctionV) -> Set<Seq<char>> {
    Set::new(
        |n: Seq<char>|
            n == c.return_type.spec_display_name() || exists|i: int|
                0 <= i < c.params.len() && (#[trigger] c.params[i]).ty is Elaborated
                    && c.params[i].ty.spec_display_name() == n,
    )
}

impl FunctionDef {
    /// The display names of the types whose definitions the schema needs
    /// for this contract, each once.
    pub fn required_nontrivial_types(&self) -> (r: Vec<String>)
        ensures
            forall|n: Seq<char>|
                #[trigger] spec_name_in(r@, n) <==> spec_required_tnames(
                    self@.c_function,
                ).contains(n),
            spec_names_distinct(r@),
    {
        let ghost cf = self@.c_function;
        let mut required_types: Vec<String> = Vec::new();
        let ret_name = self.c_function.return_type.display_name();
        proof {
            lemma_name_in_push(required_types@, ret_name);
        }
        required_types.push(ret_name);
        let mut i: usize = 0;
        while i < self.c_function.params.len()
            invariant
                0 <= i <= cf.params.len(),
                cf == self@.c_function,
                cf.params.len() == self.c_function.params@.len(),
                spec_names_distinct(required_types@),
                forall|n: Seq<char>|
                    #[trigger] spec_name_in(required_types@, n) <==> (n
                        == cf.return_type.spec_display_name() || exists|j: int|
                        0 <= j < i && (#[trigger] cf.params[j]).ty is Elaborated
                            && cf.params[j].ty.spec_display_name() == n),
            decreases cf.params.len() - i,
        {
            let p = &self.c_function.params[i];
            if matches!(p.ty, CType::Elaborated { .. }) {
                let tname = p.ty.display_name();
                if !name_in(&required_types, &tname) {
                    proof {
                        lemma_name_in_push(required_types@, tname);
                        lemma_names_distinct_push(required_types@, tname);
                    }
                    required_types.push(tname);
                }
            }
            i = i + 1;
        }
        required_types
    }
}

/// Whether every type the signature reaches is one the compiler can put on
/// the wire.
pub open spec fn spec_types_supported(c: CFunctionV) -> bool {
    &&& c.return_type.spec_supported()
    &&& forall|i: int| 0 <= i < c.params.len() ==> (#[trigger] c.params[i]).ty.spec_supported()
}

/// Whether described and declared parameters correspond one to one by
/// name: every described name is declared, every declared name is
/// described, and neither side repeats a name.
pub open spec fn spec_params_match(d: FunctionDescriptionV, c: CFunctionV) -> bool {
    &&& forall|i: int|
        0 <= i < d.params.len() ==> spec_has_c_param(c.params, (#[trigger] d.params[i]).name@)
    &&& forall|j: int|
        0 <= j < c.params.len() ==> spec_has_param(d.params, (#[trigger] c.params[j]).name@)
    &&& forall|i: int, j: int|
        0 <= i < j < d.params.len() ==> d.params[i].name@ != d.params[j].name@
    &&& forall|i: int, j: int|
        0 <= i < j < c.params.len() ==> c.params[i].name@ != c.params[j].name@
}

/// Whether one contract is well formed: its types are supported and its
/// parameters correspond.
pub open spec fn spec_contract_wf(fd: FunctionDefV) -> bool {
    &&& spec_types_supported(fd.c_function)
    &&& spec_params_match(fd.description, fd.c_function)
}

/// The signature of the first extracted function named `name`, if any.
pub open spec fn spec_match_for(functions: Seq<NamedCFunctionV>, name: Seq<char>) -> Option<
    CFunctionV,
>
    decreases functions.len(),
{
    if functions.len() == 0 {
        None
    } else if functions[0].name@ == name {
        Some(functions[0].def)
    } else {
        spec_match_for(functions.skip(1), name)
    }
}

/// The rejection one description earns against the extracted signatures,
/// if any: no signature of its name, an unsupported type in the matched
/// signature, parameters that do not correspond, or a parameter named
/// like the reserved return field of every result message.
pub open spec fn spec_desc_verdict(
    d: FunctionDescriptionV,
    functions: Seq<NamedCFunctionV>,
) -> Option<GenError> {
    match spec_match_for(functions, d.name@) {
        Option::None => Some(GenError::MissingSignature),
        Option::Some(c) => if !spec_types_supported(c) {
            Some(GenError::UnsupportedType)
        } else if !spec_params_match(d, c) {
            Some(GenError::ParamMismatch)
        } else if spec_has_c_param(c.params, "return"@) {
            Some(GenError::NameCollision)
        } else {
            None
        },
    }
}

/// The rejection of the first description that earns one, if any.
pub open spec fn spec_first_verdict(
    descs: Seq<FunctionDescriptionV>,
    functions: Seq<NamedCFunctionV>,
) -> Option<GenError>
    decreases descs.len(),
{
    if descs.len() == 0 {
        None
    } else {
        match spec_desc_verdict(descs[0], functions) {
            Option::Some(e) => Some(e),
            Option::None => spec_first_verdict(descs.skip(1), functions),
        }
    }
}

/// Validation stops at the first rejection and only there: the set earns
/// no rejection exactly when no description does.
pub proof fn lemma_first_verdict_none(
    descs: Seq<FunctionDescriptionV>,
    functions: Seq<NamedCFunctionV>,
)
    ensures
        spec_first_verdict(descs, functions) is None <==> (forall|i: int|
            0 <= i < descs.len() ==> spec_desc_verdict(#[trigger] descs[i], functions) is None),
    decreases descs.len(),
{
    if descs.len() > 0 {
        lemma_first_verdict_none(descs.skip(1), functions);
        assert(forall|i: int| 0 <= i < descs.skip(1).len() ==> descs.skip(1)[i] == descs[i + 1]);
        if spec_first_verdict(descs, functions) is None {
            assert forall|i: int|
                0 <= i < descs.len() implies spec_desc_verdict(
                #[trigger] descs[i],
                functions,
            ) is None by {
                if i > 0 {
                    assert(descs.skip(1)[i - 1] == descs[i]);
                }
            }
        }
        if forall|i: int|
            0 <= i < descs.len() ==> spec_desc_verdict(#[trigger] descs[i], functions) is None {
            assert(forall|i: int|
                0 <= i < descs.skip(1).len() ==> spec_desc_verdict(
                    #[trigger] descs.skip(1)[i],
                    functions,
                ) is None);
        }
    }
}

/// Matching: a description whose matched signature does not correspond to
/// its parameters one to one by name — a described name the signature
/// lacks, or the other way around — dooms the whole validation; and a set
/// in which every description matches cleanly validates to exactly one
/// contract per description.
pub proof fn lemma_generation_matching(
    descs: Seq<FunctionDescriptionV>,
    functions: Seq<NamedCFunctionV>,
)
    ensures
        (exists|i: int|
            0 <= i < descs.len() && (spec_match_for(functions, (#[trigger] descs[i]).name@)
                matches Some(c) && !spec_params_match(descs[i], c))) ==> spec_first_verdict(
            descs,
            functions,
        ) is Some,
        (forall|i: int|
            0 <= i < descs.len() ==> spec_desc_verdict(#[trigger] descs[i], functions) is None)
            ==> (spec_first_verdict(descs, functions) is None && spec_contracts_of(
            descs,
            functions,
        ).len() == descs.len()),
{
    lemma_first_verdict_none(descs, functions);
    if exists|i: int|
        0 <= i < descs.len() && (spec_match_for(functions, (#[trigger] descs[i]).name@)
            matches Some(c) && !spec_params_match(descs[i], c)) {
        let i = choose|i: int|
            0 <= i < descs.len() && (spec_match_for(functions, (#[trigger] descs[i]).name@)
                matches Some(c) && !spec_params_match(descs[i], c));
        assert(spec_desc_verdict(descs[i], functions) is Some);
    }
}

/// The contract set a description list and a signature list validate to:
/// one contract per description, in description order, each joined with
/// the first extracted signature of its name. Meaningful when every
/// description has one.
pub open spec fn spec_contracts_of(
    descs: Seq<FunctionDescriptionV>,
    functions: Seq<NamedCFunctionV>,
) -> Seq<FunctionDefV> {
    Seq::new(
        descs.len(),
        |i: int|
            FunctionDefV {
                description: descs[i],
                c_function: spec_match_for(functions, descs[i].name@).unwrap(),
            },
    )
}

/// Whether two described function names collide after the case transform,
/// which would give two functions the same wire message names.
pub open spec fn spec_rust_names_collide(descs: Seq<FunctionDescriptionV>) -> bool {
    exists|i: int, j: int|
        0 <= i < j < descs.len() && upper_camel_of(descs[i].name@) == upper_camel_of(descs[j].name@)
}

/// Reports whether every type the signature reaches is supported.
fn types_supported(c: &CFunction) -> (r: bool)
    ensures
        r == spec_types_supported(c@),
{
    if !c.return_type.supported() {
        return false;
    }
    let mut i: usize = 0;
    while i < c.params.len()
        invariant
            0 <= i <= c.params@.len(),
            c.return_type.spec_supported(),
            forall|j: int| 0 <= j < i ==> (#[trigger] c.params@[j]).ty.spec_supported(),
        decreases c.params@.len() - i,
    {
        if !c.params[i].ty.supported() {
            return false;
        }
        i = i + 1;
    }
    true
}

/// Reports whether described and declared parameters correspond one to one
/// by name.
fn params_match(d: &FunctionDescription, c: &CFunction) -> (r: bool)
    ensures
        r == spec_params_match(d@, c@),
{
    let mut i: usize = 0;
    while i < d.params.len()
        invariant
            0 <= i <= d.params@.len(),
            forall|j: int|
                0 <= j < i ==> spec_has_c_param(c.params@, (#[trigger] d.params@[j]).name@),
        decreases d.params@.len() - i,
    {
        if !has_c_param(&c.params, &d.params[i].name) {
            return false;
        }
        i = i + 1;
    }
    let mut j: usize = 0;
    while j < c.params.len()
        invariant
            0 <= j <= c.params@.len(),
            forall|i2: int|
                0 <= i2 < d.params@.len() ==> spec_has_c_param(
                    c.params@,
                    (#[trigger] d.params@[i2]).name@,
                ),
            forall|k: int|
                0 <= k < j ==> spec_has_param(d.params@, (#[trigger] c.params@[k]).name@),
        decreases c.params@.len() - j,
    {
        if !has_param(&d.params, &c.params[j].name) {
            return false;
        }
        j = j + 1;
    }
    let d_names = param_names(&d.params);
    if !names_distinct(&d_names) {
        proof {
            let (a, b) = choose|a: int, b: int|
                0 <= a < b < d_names@.len() && d_names@[a]@ == d_names@[b]@;
            assert(d.params@[a].name@ == d.params@[b].name@);
        }
        return false;
    }
    let c_names = c_param_names(&c.params);
    if !names_distinct(&c_names) {
        proof {
            let (a, b) = choose|a: int, b: int|
                0 <= a < b < c_names@.len() && c_names@[a]@ == c_names@[b]@;
            assert(c.params@[a].name@ == c.params@[b].name@);
        }
        return false;
    }
    proof {
        assert forall|a: int, b: int|
            0 <= a < b < d.params@.len() implies d.params@[a].name@ != d.params@[b].name@ by {
            assert(d_names@[a] == d.params@[a].name);
            assert(d_names@[b] == d.params@[b].name);
        }
        assert forall|a: int, b: int|
            0 <= a < b < c.params@.len() implies c.params@[a].name@ != c.params@[b].name@ by {
            assert(c_names@[a] == c.params@[a].name);
            assert(c_names@[b] == c.params@[b].name);
        }
    }
    true
}

/// The index of the first extracted function named `name`, if any.
fn find_function(functions: &Vec<NamedCFunction>, name: &String) -> (r: Option<usize>)
    ensures
        r matches Some(idx) ==> 0 <= idx < functions@.len() && spec_match_for(
            seq_view(functions@),
            name@,
        ) == Some(functions@[idx as int]@.def),
        r is None <==> spec_match_for(seq_view(functions@), name@) is None,
{
    let ghost funcs = seq_view(functions@);
    let mut i: usize = 0;
    proof {
        assert(funcs.skip(0) =~= funcs);
    }
    while i < functions.len()
        invariant
            0 <= i <= functions@.len(),
            funcs == seq_view(functions@),
            funcs.len() == functions@.len(),
            spec_match_for(funcs, name@) == spec_match_for(funcs.skip(i as int), name@),
        decreases functions@.len() - i,
    {
        proof {
            assert(funcs.skip(i as int)[0] == funcs[i as int]);
            assert(funcs[i as int] == functions@[i as int]@);
        }
        if functions[i].name.eq(name) {
            return Some(i);
        }
        proof {
            assert(funcs.skip(i as int).skip(1) =~= funcs.skip(i + 1));
        }
        i = i + 1;
    }
    proof {
        assert(funcs.skip(i as int).len() == 0);
    }
    None
}

/// Joins every description with the native signature of its name and
/// validates the whole set; nothing is emitted from a set that fails.
///
/// The contracts come back in description order, one per description, so
/// the union tags the schema derives from them never depend on an
/// iteration order.
pub fn build_contracts(
    function_descriptions: &Vec<FunctionDescription>,
    functions: &Vec<NamedCFunction>,
) -> (r: Result<Vec<FunctionDef>, GenError>)
    ensures
        ({
            let descs = seq_view(function_descriptions@);
            let funcs = seq_view(functions@);
            &&& (r == Result::<Vec<FunctionDef>, GenError>::Err(GenError::DuplicateId)
                <==> !spec_ids_unique(descs))
            &&& spec_ids_unique(descs) ==> match spec_first_verdict(descs, funcs) {
                Option::Some(e) => r == Result::<Vec<FunctionDef>, GenError>::Err(e),
                Option::None => if spec_rust_names_collide(descs) {
                    r == Result::<Vec<FunctionDef>, GenError>::Err(GenError::NameCollision)
                } else {
                    r is Ok
                },
            }
            &&& r matches Ok(contracts) ==> {
                &&& seq_view(contracts@) == spec_contracts_of(descs, funcs)
                &&& seq_view(contracts@).len() == descs.len()
                &&& forall|i: int|
                    0 <= i < descs.len() ==> (#[trigger] seq_view(contracts@)[i]).description
                        == descs[i]
                &&& forall|i: int|
                    0 <= i < descs.len() ==> Some((#[trigger] seq_view(contracts@)[i]).c_function)
                        == spec_match_for(funcs, descs[i].name@)
                &&& forall|i: int|
                    0 <= i < descs.len() ==> spec_contract_wf(#[trigger] seq_view(contracts@)[i])
            }
        }),
{
    let ghost descs = seq_view(function_descriptions@);
    let ghost funcs = seq_view(functions@);
    if !check_id_uniqueness(function_descriptions) {
        return Err(GenError::DuplicateId);
    }
    let mut contracts: Vec<FunctionDef> = Vec::new();
    let mut i: usize = 0;
    proof {
        assert(descs.skip(0) =~= descs);
    }
    while i < function_descriptions.len()
        invariant
            0 <= i <= function_descriptions@.len(),
            descs == seq_view(function_descriptions@),
            funcs == seq_view(functions@),
            descs.len() == function_descriptions@.len(),
            spec_ids_unique(descs),
            spec_first_verdict(descs, funcs) == spec_first_verdict(descs.skip(i as int), funcs),
            seq_view(contracts@).len() == i,
            forall|k: int|
                0 <= k < i ==> (#[trigger] seq_view(contracts@)[k]).description == descs[k],
            forall|k: int|
                0 <= k < i ==> Some((#[trigger] seq_view(contracts@)[k]).c_function)
                    == spec_match_for(funcs, descs[k].name@),
            forall|k: int| 0 <= k < i ==> spec_contract_wf(#[trigger] seq_view(contracts@)[k]),
        decreases function_descriptions@.len() - i,
    {
        proof {
            assert(descs.skip(i as int)[0] == descs[i as int]);
            assert(descs[i as int] == function_descriptions@[i as int]@);
            assert(descs.skip(i as int).skip(1) =~= descs.skip(i + 1));
        }
        let desc = &function_descriptions[i];
        let found = find_function(functions, &desc.name);
        match found {
            None => {
                return Err(GenError::MissingSignature);
            },
            Some(idx) => {
                let cf = &functions[idx].def;
                if !types_supported(cf) {
                    return Err(GenError::UnsupportedType);
                }
                if !params_match(desc, cf) {
                    return Err(GenError::ParamMismatch);
                }
                if has_c_param(&cf.params, &String::from_str("return")) {
                    return Err(GenError::NameCollision);
                }
                let ghost contracts_pre = contracts@;
                let fd = FunctionDef { description: desc.clone(), c_function: cf.clone() };
                contracts.push(fd);
                proof {
                    assert(seq_view(contracts@) =~= seq_view(contracts_pre) + seq![fd@]);
                }
            },
        }
        i = i + 1;
    }
    proof {
        assert(descs.skip(i as int).len() == 0);
    }
    let mut rust_names: Vec<String> = Vec::new();
    let mut k: usize = 0;
    while k < function_descriptions.len()
        invariant
            0 <= k <= function_descriptions@.len(),
            descs == seq_view(function_descriptions@),
            descs.len() == function_descriptions@.len(),
            rust_names@.len() == k,
            forall|j: int|
                0 <= j < k ==> (#[trigger] rust_names@[j])@ == upper_camel_of(descs[j].name@),
        decreases function_descriptions@.len() - k,
    {
        proof {
            assert(descs[k as int] == function_descriptions@[k as int]@);
        }
        rust_names.push(c_to_rust_name(function_descriptions[k].name.as_str()));
        k = k + 1;
    }
    if !names_distinct(&rust_names) {
        proof {
            let (a, b) = choose|a: int, b: int|
                0 <= a < b < rust_names@.len() && rust_names@[a]@ == rust_names@[b]@;
            assert(upper_camel_of(descs[a].name@) == upper_camel_of(descs[b].name@));
        }
        return Err(GenError::NameCollision);
    }
    proof {
        if spec_rust_names_collide(descs) {
            let (a, b) = choose|a: int, b: int|
                0 <= a < b < descs.len() && upper_camel_of(descs[a].name@) == upper_camel_of(
                    descs[b].name@,
                );
            assert(rust_names@[a]@ == rust_names@[b]@);
            assert(!spec_names_distinct(rust_names@));
        }
        assert(seq_view(contracts@) =~= spec_contracts_of(descs, funcs));
    }
    Ok(contracts)
}

/// The display names of the types whose definitions the schema needs for
/// a whole contract set, each once: the union over the contracts.
pub fn required_types_of(contracts: &Vec<FunctionDef>) -> (r: Vec<String>)
    ensures
        forall|n: Seq<char>|
            #[trigger] spec_name_in(r@, n) <==> exists|i: int|
                0 <= i < contracts@.len() && spec_required_tnames(
                    (#[trigger] seq_view(contracts@)[i]).c_function,
                ).contains(n),
        spec_names_distinct(r@),
{
    let ghost fds = seq_view(contracts@);
    let mut out: Vec<String> = Vec::new();
    let mut i: usize = 0;
    while i < contracts.len()
        invariant
            0 <= i <= contracts@.len(),
            fds == seq_view(contracts@),
            fds.len() == contracts@.len(),
            spec_names_distinct(out@),
            forall|n: Seq<char>|
                #[trigger] spec_name_in(out@, n) <==> exists|k: int|
                    0 <= k < i && spec_required_tnames((#[trigger] fds[k]).c_function).contains(n),
        decreases contracts@.len() - i,
    {
        proof {
            assert(fds[i as int] == contracts@[i as int]@);
        }
        let contract_types = contracts[i].required_nontrivial_types();
        let mut j: usize = 0;
        while j < contract_types.len()
            invariant
                0 <= j <= contract_types@.len(),
                0 <= i < fds.len(),
                forall|n: Seq<char>|
                    #[trigger] spec_name_in(contract_types@, n) <==> spec_required_tnames(
                        fds[i as int].c_function,
                    ).contains(n),
                spec_names_distinct(out@),
                forall|n: Seq<char>|
                    #[trigger] spec_name_in(out@, n) <==> (exists|k: int|
                        0 <= k < i && spec_required_tnames(
                            (#[trigger] fds[k]).c_function,
                        ).contains(n)) || (exists|m: int|
                        0 <= m < j && (#[trigger] contract_types@[m])@ == n),
            decreases contract_types@.len() - j,
        {
            let tname = &contract_types[j];
            if !name_in(&out, tname) {
                proof {
                    lemma_name_in_push(out@, *tname);
                    lemma_names_distinct_push(out@, *tname);
                }
                out.push(tname.clone());
            }
            proof {
                assert(spec_name_in(contract_types@, contract_types@[j as int]@));
            }
            j = j + 1;
        }
        proof {
            assert forall|n: Seq<char>| #[trigger]
                spec_name_in(out@, n) <==> exists|k: int|
                    0 <= k < i + 1 && spec_required_tnames(
                        (#[trigger] fds[k]).c_function,
                    ).contains(n) by {
                if spec_name_in(out@, n) {
                    if exists|m: int| 0 <= m < j && (#[trigger] contract_types@[m])@ == n {
                        let m = choose|m: int|
                            0 <= m < j && (#[trigger] contract_types@[m])@ == n;
                        assert(spec_name_in(contract_types@, n));
                        assert(spec_required_tnames(fds[i as int].c_function).contains(n));
                    }
                }
                if exists|k: int|
                    0 <= k < i + 1 && spec_required_tnames(
                        (#[trigger] fds[k]).c_function,
                    ).contains(n) {
                    let k = choose|k: int|
                        0 <= k < i + 1 && spec_required_tnames(
                            (#[trigger] fds[k]).c_function,
                        ).contains(n);
                    if k == i {
                        assert(spec_name_in(contract_types@, n));
                        let m = choose|m: int|
                            0 <= m < contract_types@.len() && (#[trigger] contract_types@[m])@
                                == n;
                        assert(0 <= m < j && contract_types@[m]@ == n);
                    }
                }
            }
        }
        i = i + 1;
    }
    out
}

} // verus!
